//! Sample lines, worked through the grammars: what a line denotes is
//! proved from the grammars' definitions.

use vstd::prelude::*;
use crate::number::{digits_value, magnitude_of, Magnitude};
use crate::parser::set::{first_token, second_token, set_of_text};
use crate::parser::stat::{stat_of_normalized, stat_of_text, without_boost};
use crate::relic::{Percent, RelicSet, Stat};
use crate::text::{
    is_ascii_text, join_with_space, lemma_prefix_len_is, lemma_remove_all_keeps,
    lemma_split_skips_whitespace, lemma_split_takes_word, lemma_suffix_len_is, lowercase,
    remove_all, split_whitespace, strip_trailing, trim, CharClass,
};

verus! {

/// The lengths of the stat keys, and the first character of those that
/// share a length with `atk` or `crit dmg`.
proof fn lemma_stat_keys_differ()
    ensures
        "hp"@.len() == 2,
        "atk"@.len() == 3 && "atk"@[0] == 'a',
        "def"@.len() == 3 && "def"@[0] == 'd',
        "spd"@.len() == 3 && "spd"@[0] == 's',
        "break effect"@.len() == 12,
        "effect hit rate"@.len() == 15,
        "energy regeneration rate"@.len() == 24,
        "outgoing healing"@.len() == 16,
        "physical dmg"@.len() == 12,
        "fire dmg"@.len() == 8 && "fire dmg"@[0] == 'f',
        "ice dmg"@.len() == 7,
        "wind dmg"@.len() == 8 && "wind dmg"@[0] == 'w',
        "lightning dmg"@.len() == 13,
        "quantum dmg"@.len() == 11,
        "imaginary dmg"@.len() == 13,
        "crit rate"@.len() == 9,
        "crit dmg"@.len() == 8 && "crit dmg"@[0] == 'c',
{
    reveal_strlit("hp");
    reveal_strlit("atk");
    reveal_strlit("def");
    reveal_strlit("spd");
    reveal_strlit("break effect");
    reveal_strlit("effect hit rate");
    reveal_strlit("energy regeneration rate");
    reveal_strlit("outgoing healing");
    reveal_strlit("physical dmg");
    reveal_strlit("fire dmg");
    reveal_strlit("ice dmg");
    reveal_strlit("wind dmg");
    reveal_strlit("lightning dmg");
    reveal_strlit("quantum dmg");
    reveal_strlit("imaginary dmg");
    reveal_strlit("crit rate");
    reveal_strlit("crit dmg");
}

/// A line without whitespace at its ends is its own trimmed form.
proof fn lemma_trim_keeps(t: Seq<char>)
    requires
        t.len() > 0,
        !CharClass::Whitespace.holds(t[0]),
        !CharClass::Whitespace.holds(t.last()),
    ensures
        trim(t) == t,
{
    lemma_prefix_len_is(t, CharClass::Whitespace, 0);
    assert(t.skip(0) =~= t);
    lemma_suffix_len_is(t, CharClass::Whitespace, 0);
    assert(t.take(t.len() as int) =~= t);
}

/// `ATK 50` is an attack of fifty.
pub proof fn sample_absolute_attack()
    ensures
        stat_of_text("ATK 50"@) == Some(Stat::ATK(50)),
{
    reveal_strlit("ATK 50");
    reveal_strlit("Boost");
    lemma_stat_keys_differ();
    let t = "ATK 50"@;
    let b = "Boost"@;
    assert(t =~= seq!['A', 'T', 'K', ' ', '5', '0']);
    assert(!t.contains('%'));
    lemma_trim_keeps(t);
    lemma_remove_all_keeps(t, b, 2);
    assert(t.take(2) + t.skip(2) =~= t);
    assert(without_boost(t) == t);
    assert(is_ascii_text(t));
    let l = lowercase(t);
    assert(l =~= seq!['a', 't', 'k', ' ', '5', '0']);
    lemma_split_takes_word(l, 3);
    lemma_split_skips_whitespace(l.skip(3), 1);
    let rest = l.skip(3).skip(1);
    assert(rest =~= seq!['5', '0']);
    lemma_split_takes_word(rest, 2);
    assert(rest.skip(2) =~= Seq::<char>::empty());
    let words = split_whitespace(l);
    assert(words =~= seq![l.take(3), rest.take(2)]);
    assert(rest.take(2) =~= rest);
    lemma_suffix_len_is(rest, CharClass::Exactly('%'), 0);
    assert(strip_trailing(rest, '%') =~= rest);
    lemma_fifty();
    assert(words.drop_last() =~= seq![l.take(3)]);
    reveal_strlit("atk");
    assert(l.take(3) =~= "atk"@);
}

/// The numeral `50`.
proof fn lemma_fifty()
    ensures
        magnitude_of(seq!['5', '0']) == Some(Magnitude { whole: 50, thousandths: 0 }),
{
    let num = seq!['5', '0'];
    lemma_prefix_len_is(num, CharClass::Digit, 2);
    reveal_with_fuel(digits_value, 3);
    assert(num.take(2) =~= num);
    assert(num.drop_last() =~= seq!['5']);
    assert(num.drop_last().drop_last() =~= Seq::<char>::empty());
    assert(num.skip(2).len() == 0);
}

/// The numeral `5`.
proof fn lemma_five()
    ensures
        magnitude_of(seq!['5']) == Some(Magnitude { whole: 5, thousandths: 0 }),
{
    let num = seq!['5'];
    lemma_prefix_len_is(num, CharClass::Digit, 1);
    reveal_with_fuel(digits_value, 2);
    assert(num.take(1) =~= num);
    assert(num.drop_last() =~= Seq::<char>::empty());
    assert(num.skip(1).len() == 0);
}

/// The numeral `64.8`.
proof fn lemma_sixty_four_point_eight()
    ensures
        magnitude_of(seq!['6', '4', '.', '8']) == Some(Magnitude { whole: 64, thousandths: 800 }),
{
    let num = seq!['6', '4', '.', '8'];
    lemma_prefix_len_is(num, CharClass::Digit, 2);
    let whole = num.take(2);
    reveal_with_fuel(digits_value, 3);
    assert(whole.drop_last() =~= seq!['6']);
    assert(whole.drop_last().drop_last() =~= Seq::<char>::empty());
    assert(digits_value(whole) == 64);
    let fraction = num.skip(2).skip(1);
    assert(fraction =~= seq!['8']);
    lemma_prefix_len_is(fraction, CharClass::Digit, 1);
}

/// `ATK Boost 5%` is an attack of five percent: the percent sign in the line
/// selects the percentage.
pub proof fn sample_attack_percentage()
    ensures
        stat_of_text("ATK Boost 5%"@) == Some(Stat::ATKP(Percent { thousandths: 5_000 })),
{
    reveal_strlit("ATK Boost 5%");
    reveal_strlit("Boost");
    lemma_stat_keys_differ();
    let t = "ATK Boost 5%"@;
    let b = "Boost"@;
    assert(t =~= seq!['A', 'T', 'K', ' ', 'B', 'o', 'o', 's', 't', ' ', '5', '%']);
    assert(b =~= seq!['B', 'o', 'o', 's', 't']);
    assert(t[11] == '%');
    assert(t.contains('%'));
    lemma_trim_keeps(t);
    lemma_remove_all_keeps(t, b, 4);
    let at = t.skip(4);
    assert(at.take(5) =~= b);
    let tail = at.skip(5);
    assert(tail =~= seq![' ', '5', '%']);
    assert(remove_all(tail, b) == tail);
    let plain = seq!['A', 'T', 'K', ' ', ' ', '5', '%'];
    assert(t.take(4) + tail =~= plain);
    assert(without_boost(t) == plain);
    assert(is_ascii_text(plain));
    let l = lowercase(plain);
    assert(l =~= seq!['a', 't', 'k', ' ', ' ', '5', '%']);
    lemma_split_takes_word(l, 3);
    lemma_split_skips_whitespace(l.skip(3), 2);
    let rest = l.skip(3).skip(2);
    assert(rest =~= seq!['5', '%']);
    lemma_split_takes_word(rest, 2);
    assert(rest.skip(2) =~= Seq::<char>::empty());
    let words = split_whitespace(l);
    assert(words =~= seq![l.take(3), rest.take(2)]);
    assert(rest.take(2) =~= rest);
    lemma_suffix_len_is(rest, CharClass::Exactly('%'), 1);
    assert(strip_trailing(rest, '%') =~= seq!['5']);
    lemma_five();
    assert(words.drop_last() =~= seq![l.take(3)]);
    reveal_strlit("atk");
    assert(l.take(3) =~= "atk"@);
    assert(stat_of_normalized(l, true) == Some(Stat::ATKP(Percent { thousandths: 5_000 })));
}

/// `Crit DMG Boost 64.8%` is a crit damage of 64.8 percent.
pub proof fn sample_crit_damage()
    ensures
        stat_of_text("Crit DMG Boost 64.8%"@) == Some(Stat::CD(Percent { thousandths: 64_800 })),
{
    reveal_strlit("Crit DMG Boost 64.8%");
    reveal_strlit("Boost");
    lemma_stat_keys_differ();
    let t = "Crit DMG Boost 64.8%"@;
    let b = "Boost"@;
    assert(t =~= seq![
        'C', 'r', 'i', 't', ' ', 'D', 'M', 'G', ' ', 'B', 'o', 'o', 's', 't', ' ', '6', '4', '.',
        '8', '%',
    ]);
    assert(b =~= seq!['B', 'o', 'o', 's', 't']);
    assert(t[19] == '%');
    assert(t.contains('%'));
    lemma_trim_keeps(t);
    lemma_remove_all_keeps(t, b, 9);
    let at = t.skip(9);
    assert(at.take(5) =~= b);
    let tail = at.skip(5);
    assert(tail =~= seq![' ', '6', '4', '.', '8', '%']);
    lemma_remove_all_keeps(tail, b, 2);
    assert(remove_all(tail.skip(2), b) == tail.skip(2));
    assert(tail.take(2) + tail.skip(2) =~= tail);
    let plain = seq![
        'C', 'r', 'i', 't', ' ', 'D', 'M', 'G', ' ', ' ', '6', '4', '.', '8', '%',
    ];
    assert(t.take(9) + tail =~= plain);
    assert(without_boost(t) == plain);
    assert(is_ascii_text(plain));
    let l = lowercase(plain);
    assert(l =~= seq![
        'c', 'r', 'i', 't', ' ', 'd', 'm', 'g', ' ', ' ', '6', '4', '.', '8', '%',
    ]);
    lemma_split_takes_word(l, 4);
    lemma_split_skips_whitespace(l.skip(4), 1);
    let second = l.skip(4).skip(1);
    assert(second =~= seq!['d', 'm', 'g', ' ', ' ', '6', '4', '.', '8', '%']);
    lemma_split_takes_word(second, 3);
    lemma_split_skips_whitespace(second.skip(3), 2);
    let third = second.skip(3).skip(2);
    assert(third =~= seq!['6', '4', '.', '8', '%']);
    lemma_split_takes_word(third, 5);
    assert(third.skip(5) =~= Seq::<char>::empty());
    let words = split_whitespace(l);
    assert(words =~= seq![l.take(4), second.take(3), third.take(5)]);
    assert(third.take(5) =~= third);
    lemma_suffix_len_is(third, CharClass::Exactly('%'), 1);
    assert(strip_trailing(third, '%') =~= seq!['6', '4', '.', '8']);
    lemma_sixty_four_point_eight();
    let keys = words.drop_last();
    assert(keys =~= seq![l.take(4), second.take(3)]);
    assert(keys.drop_last() =~= seq![l.take(4)]);
    reveal_with_fuel(join_with_space, 3);
    reveal_strlit("crit dmg");
    assert(join_with_space(keys) =~= "crit dmg"@);
    assert(stat_of_normalized(l, true) == Some(Stat::CD(Percent { thousandths: 64_800 })));
}

/// A single word is no stat.
pub proof fn sample_single_word()
    ensures
        stat_of_text("garbage"@) is None,
{
    reveal_strlit("garbage");
    reveal_strlit("Boost");
    let t = "garbage"@;
    let b = "Boost"@;
    assert(t =~= seq!['g', 'a', 'r', 'b', 'a', 'g', 'e']);
    lemma_trim_keeps(t);
    lemma_remove_all_keeps(t, b, 3);
    assert(t.take(3) + t.skip(3) =~= t);
    assert(without_boost(t) == t);
    assert(is_ascii_text(t));
    let l = lowercase(t);
    assert(l =~= t);
    lemma_split_takes_word(l, 7);
    assert(l.skip(7) =~= Seq::<char>::empty());
    assert(split_whitespace(l) =~= seq![l.take(7)]);
}

/// The lengths of the set tokens up to `poet`, and the first character of
/// those of four characters.
proof fn lemma_set_tokens_differ()
    ensures
        "the"@.len() == 3,
        "band"@.len() == 4 && "band"@[0] == 'b',
        "champion"@.len() == 8,
        "eagle"@.len() == 5,
        "firesmith"@.len() == 9,
        "genius"@.len() == 6,
        "guard"@.len() == 5,
        "hero"@.len() == 4 && "hero"@[0] == 'h',
        "hunter"@.len() == 6,
        "iron"@.len() == 4 && "iron"@[0] == 'i',
        "knight"@.len() == 6,
        "longevous"@.len() == 9,
        "messenger"@.len() == 9,
        "musketeer"@.len() == 9,
        "passerby"@.len() == 8,
        "pioneer"@.len() == 7,
        "poet"@ == seq!['p', 'o', 'e', 't'],
{
    reveal_strlit("the");
    reveal_strlit("band");
    reveal_strlit("champion");
    reveal_strlit("eagle");
    reveal_strlit("firesmith");
    reveal_strlit("genius");
    reveal_strlit("guard");
    reveal_strlit("hero");
    reveal_strlit("hunter");
    reveal_strlit("iron");
    reveal_strlit("knight");
    reveal_strlit("longevous");
    reveal_strlit("messenger");
    reveal_strlit("musketeer");
    reveal_strlit("passerby");
    reveal_strlit("pioneer");
    reveal_strlit("poet");
    assert("poet"@ =~= seq!['p', 'o', 'e', 't']);
}

/// `Poet of Mourning Collected Works` is the poet's set: the first token
/// selects it.
pub proof fn sample_set_by_first_token()
    ensures
        set_of_text("Poet of Mourning Collected Works"@) == Some(RelicSet::POET),
{
    reveal_strlit("Poet of Mourning Collected Works");
    lemma_set_tokens_differ();
    let t = "Poet of Mourning Collected Works"@;
    assert(t.len() == 32);
    assert(t[0] == 'P' && t[1] == 'o' && t[2] == 'e' && t[3] == 't' && t[4] == ' ');
    lemma_prefix_len_is(t, CharClass::Alphanumeric, 4);
    let first = first_token(t);
    assert(first =~= seq!['P', 'o', 'e', 't']);
    assert(is_ascii_text(first));
    assert(lowercase(first) =~= "poet"@);
}

/// `The Ashblazing Grand Duke` is the duke's set: after the article the
/// second token decides.
pub proof fn sample_set_after_article()
    ensures
        set_of_text("The Ashblazing Grand Duke"@) == Some(RelicSet::DUKE),
{
    reveal_strlit("The Ashblazing Grand Duke");
    reveal_strlit("the");
    reveal_strlit("ashblazing");
    let t = "The Ashblazing Grand Duke"@;
    assert(t.len() == 25);
    assert(t[0] == 'T' && t[1] == 'h' && t[2] == 'e' && t[3] == ' ');
    lemma_prefix_len_is(t, CharClass::Alphanumeric, 3);
    let first = first_token(t);
    assert(first =~= seq!['T', 'h', 'e']);
    assert(is_ascii_text(first));
    assert(lowercase(first) =~= "the"@);
    let rest = t.skip(4);
    assert(rest.len() == 21);
    assert(rest[0] == 'A' && rest[1] == 's' && rest[2] == 'h' && rest[3] == 'b' && rest[4] == 'l'
        && rest[5] == 'a' && rest[6] == 'z' && rest[7] == 'i' && rest[8] == 'n' && rest[9] == 'g'
        && rest[10] == ' ');
    lemma_prefix_len_is(rest, CharClass::Alphanumeric, 10);
    let second = second_token(t)->0;
    assert(second =~= seq!['A', 's', 'h', 'b', 'l', 'a', 'z', 'i', 'n', 'g']);
    assert(is_ascii_text(second));
    assert(lowercase(second) =~= "ashblazing"@);
}

} // verus!
