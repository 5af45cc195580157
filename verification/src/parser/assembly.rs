//! Assembly of a relic from the lines recognised in its bands.

use vstd::prelude::*;
use crate::names::{NameTable, Names};
use crate::parser::set::{parse_set, set_of_text};
use crate::parser::slot::{parse_slot, slot_of_text};
use crate::parser::stat::{parse_stat, stat_of_text};
use crate::relic::{Relic, RelicView, Slot, Stat};
use crate::text::line_texts;

verus! {

/// Why the recognised lines make no relic.
#[derive(Debug, Clone, Copy, PartialEq, Eq, Structural)]
pub enum RelicError {
    /// No line was recognised in the set band.
    NoSetLine,
    /// No line of the info band names a slot.
    NoSlot,
    /// No stat line denotes a stat.
    NoMainStat,
    /// The set line selects no known set.
    UnknownSet,
    /// The name table has no row for the set.
    NoName,
}

/// A text that a grammar did not understand, kept for the owner to report.
#[derive(Debug, Clone, PartialEq, Eq)]
pub enum Unread {
    /// A stat line that denotes no stat.
    StatLine(String),
    /// A set line that selects no set.
    SetLine(String),
}

/// An unread text as a mathematical value.
pub enum UnreadText {
    StatLine(Seq<char>),
    SetLine(Seq<char>),
}

impl View for Unread {
    type V = UnreadText;

    open spec fn view(&self) -> UnreadText {
        match self {
            Unread::StatLine(text) => UnreadText::StatLine(text@),
            Unread::SetLine(text) => UnreadText::SetLine(text@),
        }
    }
}

/// What a list of unread texts holds.
pub open spec fn unread_texts(log: Seq<Unread>) -> Seq<UnreadText> {
    Seq::new(log.len(), |i: int| log[i]@)
}

/// The slot named by the first line that names one.
pub open spec fn first_slot(lines: Seq<Seq<char>>) -> Option<Slot>
    decreases lines.len(),
{
    if lines.len() == 0 {
        None
    } else {
        match slot_of_text(lines[0]) {
            Some(slot) => Some(slot),
            None => first_slot(lines.drop_first()),
        }
    }
}

/// The stats that the lines denote, in order; lines that denote none are
/// passed over.
pub open spec fn parsed_stats(lines: Seq<Seq<char>>) -> Seq<Stat>
    decreases lines.len(),
{
    if lines.len() == 0 {
        Seq::empty()
    } else {
        let front = parsed_stats(lines.drop_last());
        match stat_of_text(lines.last()) {
            Some(stat) => front.push(stat),
            None => front,
        }
    }
}

/// The lines that denote no stat, in order.
pub open spec fn unread_stats(lines: Seq<Seq<char>>) -> Seq<UnreadText>
    decreases lines.len(),
{
    if lines.len() == 0 {
        Seq::empty()
    } else {
        let front = unread_stats(lines.drop_last());
        match stat_of_text(lines.last()) {
            Some(_) => front,
            None => front.push(UnreadText::StatLine(lines.last())),
        }
    }
}

/// The texts that go unread while a relic is assembled. Without a slot
/// nothing is read. Otherwise every stat line is read, and those that
/// denote no stat go unread; where a main stat was found the set line is
/// read, and goes unread where it selects no set.
pub open spec fn unread_of(
    info: Seq<Seq<char>>,
    stats: Seq<Seq<char>>,
    set_text: Seq<char>,
) -> Seq<UnreadText> {
    if first_slot(info) is None {
        Seq::empty()
    } else if parsed_stats(stats).len() > 0 && set_of_text(set_text) is None {
        unread_stats(stats).push(UnreadText::SetLine(set_text))
    } else {
        unread_stats(stats)
    }
}

/// The relic that the lines describe: the slot is the first one named in
/// the info band, the main stat the first stat denoted, the sub-stats the
/// stats after it, the set the one that the set line selects, and the name
/// the one that the table holds for set and slot.
pub open spec fn relic_of(
    info: Seq<Seq<char>>,
    stats: Seq<Seq<char>>,
    set_text: Seq<char>,
    names: Names,
) -> Result<RelicView, RelicError> {
    match first_slot(info) {
        None => Err(RelicError::NoSlot),
        Some(slot) => {
            let found = parsed_stats(stats);
            if found.len() == 0 {
                Err(RelicError::NoMainStat)
            } else {
                match set_of_text(set_text) {
                    None => Err(RelicError::UnknownSet),
                    Some(set) => if names.contains_key(set) {
                        Ok(
                            RelicView {
                                name: names[set][slot.ordinal() as int],
                                set,
                                slot,
                                mainstat: found[0],
                                substats: found.skip(1),
                            },
                        )
                    } else {
                        Err(RelicError::NoName)
                    },
                }
            }
        },
    }
}

/// No more stats are found than there are lines.
pub proof fn lemma_parsed_stats_len(lines: Seq<Seq<char>>)
    ensures
        parsed_stats(lines).len() <= lines.len(),
    decreases lines.len(),
{
    if lines.len() > 0 {
        lemma_parsed_stats_len(lines.drop_last());
    }
}

fn find_slot(lines: &Vec<String>) -> (slot: Option<Slot>)
    ensures
        slot == first_slot(line_texts(lines@)),
{
    let ghost texts = line_texts(lines@);
    let mut i: usize = 0;
    proof {
        assert(texts.skip(0) =~= texts);
    }
    while i < lines.len()
        invariant
            i <= lines@.len(),
            texts == line_texts(lines@),
            first_slot(texts) == first_slot(texts.skip(i as int)),
        decreases lines@.len() - i,
    {
        match parse_slot(lines[i].as_str()) {
            Some(slot) => {
                return Some(slot);
            },
            None => {
                proof {
                    assert(texts.skip(i as int).drop_first() =~= texts.skip(i + 1));
                }
            },
        }
        i += 1;
    }
    None
}

fn collect_stats(lines: &Vec<String>, log: &mut Vec<Unread>) -> (stats: Vec<Stat>)
    ensures
        stats@ == parsed_stats(line_texts(lines@)),
        unread_texts(final(log)@) == unread_texts(old(log)@) + unread_stats(line_texts(lines@)),
{
    let ghost texts = line_texts(lines@);
    let ghost before = unread_texts(log@);
    let mut stats: Vec<Stat> = Vec::new();
    let mut i: usize = 0;
    proof {
        assert(texts.take(0) =~= Seq::<Seq<char>>::empty());
        assert(before + unread_stats(texts.take(0)) =~= before);
    }
    while i < lines.len()
        invariant
            i <= lines@.len(),
            texts == line_texts(lines@),
            stats@ == parsed_stats(texts.take(i as int)),
            unread_texts(log@) == before + unread_stats(texts.take(i as int)),
        decreases lines@.len() - i,
    {
        proof {
            let ghost upto = texts.take(i + 1);
            assert(upto.drop_last() =~= texts.take(i as int));
            assert(upto.last() == texts[i as int]);
        }
        match parse_stat(lines[i].as_str()) {
            Some(stat) => {
                stats.push(stat);
            },
            None => {
                let ghost logged = unread_texts(log@);
                log.push(Unread::StatLine(lines[i].clone()));
                proof {
                    let ghost entry = UnreadText::StatLine(texts[i as int]);
                    assert(unread_texts(log@) =~= logged.push(entry));
                    assert(logged.push(entry) =~= before + unread_stats(
                        texts.take(i as int),
                    ).push(entry));
                }
            },
        }
        i += 1;
    }
    proof {
        assert(texts.take(i as int) =~= texts);
    }
    stats
}

/// Assembles a relic from the lines of the info band, the stat lines and
/// the set line, taking the name from the table.
///
/// Stat lines that denote no stat are dropped. The other defects are
/// reported, in this order: no slot, no main stat, unknown set, no name.
/// The texts that were read and not understood are added to `log`.
pub fn parse_relic(
    relic_info: &Vec<String>,
    stats: &Vec<String>,
    set_text: &str,
    name_map: &NameTable,
    log: &mut Vec<Unread>,
) -> (assembled: Result<Relic, RelicError>)
    ensures
        match assembled {
            Ok(relic) => relic_of(
                line_texts(relic_info@),
                line_texts(stats@),
                set_text@,
                name_map@,
            ) == Ok::<RelicView, RelicError>(relic@),
            Err(e) => relic_of(line_texts(relic_info@), line_texts(stats@), set_text@, name_map@)
                == Err::<RelicView, RelicError>(e),
        },
        unread_texts(final(log)@) == unread_texts(old(log)@) + unread_of(
            line_texts(relic_info@),
            line_texts(stats@),
            set_text@,
        ),
{
    let ghost before = unread_texts(log@);
    let slot = match find_slot(relic_info) {
        Some(slot) => slot,
        None => {
            proof {
                assert(before + Seq::<UnreadText>::empty() =~= before);
            }
            return Err(RelicError::NoSlot);
        },
    };
    let mut found = collect_stats(stats, log);
    if found.len() == 0 {
        return Err(RelicError::NoMainStat);
    }
    let ghost all = found@;
    let mainstat = found.remove(0);
    proof {
        assert(found@ =~= all.skip(1));
    }
    let set = match parse_set(set_text) {
        Some(set) => set,
        None => {
            let ghost logged = unread_texts(log@);
            log.push(Unread::SetLine(set_text.to_owned()));
            proof {
                let ghost entry = UnreadText::SetLine(set_text@);
                assert(unread_texts(log@) =~= logged.push(entry));
                assert(logged.push(entry) =~= before + unread_stats(line_texts(stats@)).push(
                    entry,
                ));
            }
            return Err(RelicError::UnknownSet);
        },
    };
    match name_map.name(set, slot) {
        Some(name) => Ok(Relic::new(name, set, slot, mainstat, found)),
        None => Err(RelicError::NoName),
    }
}

} // verus!
