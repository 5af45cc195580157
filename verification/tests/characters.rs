//! The character classes and the lowercase form that the grammars' contracts
//! state, held against the standard library that the grammars call.

use relic_scanner::parser::{parse_set, parse_slot, parse_stat};
use relic_scanner::relic::{RelicSet, Slot, Stat};

/// The characters with the `White_Space` property.
fn is_listed_whitespace(c: char) -> bool {
    let n = c as u32;
    (0x09..=0x0d).contains(&n)
        || n == 0x20
        || n == 0x85
        || n == 0xa0
        || n == 0x1680
        || (0x2000..=0x200a).contains(&n)
        || n == 0x2028
        || n == 0x2029
        || n == 0x202f
        || n == 0x205f
        || n == 0x3000
}

fn is_ascii_letter_or_digit(c: char) -> bool {
    let n = c as u32;
    (0x30..=0x39).contains(&n) || (0x41..=0x5a).contains(&n) || (0x61..=0x7a).contains(&n)
}

fn ascii_lowercase(c: char) -> char {
    let n = c as u32;
    if (0x41..=0x5a).contains(&n) {
        char::from_u32(n + 32).unwrap()
    } else {
        c
    }
}

fn every_char() -> impl Iterator<Item = char> {
    (0..=0x10ffff_u32).filter_map(char::from_u32)
}

#[test]
fn whitespace_is_the_listed_characters() {
    let mut listed = 0;
    for c in every_char() {
        assert_eq!(c.is_whitespace(), is_listed_whitespace(c), "{:?}", c);
        if is_listed_whitespace(c) {
            listed += 1;
        }
    }
    assert_eq!(listed, 25);
}

#[test]
fn stat_lines_split_at_the_listed_whitespace() {
    for n in 0..0x3100_u32 {
        let c = char::from_u32(n).unwrap();
        let split = parse_stat(&format!("ATK{}5", c)) == Some(Stat::ATK(5));
        assert_eq!(split, is_listed_whitespace(c), "{:?}", c);
    }
}

#[test]
fn ascii_letters_and_digits_are_the_alphanumeric_characters_of_ascii() {
    for n in 0..128_u32 {
        let c = char::from_u32(n).unwrap();
        assert_eq!(c.is_alphanumeric(), is_ascii_letter_or_digit(c), "{:?}", c);
        let ended = parse_set(&format!("Poet{}of", c)) == Some(RelicSet::POET);
        assert_eq!(ended, !is_ascii_letter_or_digit(c), "{:?}", c);
    }
}

#[test]
fn ascii_text_is_put_in_lowercase_character_by_character() {
    let mut all = String::new();
    for n in 0..128_u32 {
        let c = char::from_u32(n).unwrap();
        assert_eq!(c.to_string().to_lowercase(), ascii_lowercase(c).to_string());
        all.push(c);
    }
    let lower: String = all.chars().map(ascii_lowercase).collect();
    assert_eq!(all.to_lowercase(), lower);
    for text in ["", "BODY", "Link Rope", "pLaNaR sPhErE", "A1%z@Z[`{"] {
        let expected: String = text.chars().map(ascii_lowercase).collect();
        assert_eq!(text.to_lowercase(), expected);
    }
    assert_eq!(parse_slot("pLaNaR sPhErE"), Some(Slot::SPHERE));
    assert_eq!(parse_slot("BODY"), Some(Slot::BODY));
}
