//! The record types: equipment slot, stat, set and the assembled relic.

use vstd::prelude::*;
use vstd::std_specs::cmp::PartialEqSpec;

verus! {

/// The six equipment positions.
#[allow(non_camel_case_types)]
#[derive(Debug, Clone, Copy, PartialEq, Eq, Hash, Structural)]
pub enum Slot {
    BODY,
    HEAD,
    HANDS,
    FEET,
    ROPE,
    SPHERE,
}

/// Number of equipment positions, and so of names per set.
pub const SLOT_COUNT: usize = 6;

impl Slot {
    /// The position's ordinal, the column of a name table row.
    pub open spec fn ordinal(self) -> nat {
        match self {
            Slot::BODY => 0,
            Slot::HEAD => 1,
            Slot::HANDS => 2,
            Slot::FEET => 3,
            Slot::ROPE => 4,
            Slot::SPHERE => 5,
        }
    }

    /// The position with ordinal `i`, if there is one.
    pub open spec fn at_ordinal(i: nat) -> Option<Slot> {
        if i == 0 {
            Some(Slot::BODY)
        } else if i == 1 {
            Some(Slot::HEAD)
        } else if i == 2 {
            Some(Slot::HANDS)
        } else if i == 3 {
            Some(Slot::FEET)
        } else if i == 4 {
            Some(Slot::ROPE)
        } else if i == 5 {
            Some(Slot::SPHERE)
        } else {
            None
        }
    }

    /// The position's ordinal.
    pub fn index(self) -> (i: usize)
        ensures
            i == self.ordinal(),
            i < SLOT_COUNT,
    {
        match self {
            Slot::BODY => 0,
            Slot::HEAD => 1,
            Slot::HANDS => 2,
            Slot::FEET => 3,
            Slot::ROPE => 4,
            Slot::SPHERE => 5,
        }
    }

    /// The position with ordinal `i`; absent from `SLOT_COUNT` on.
    pub fn from_index(i: usize) -> (slot: Option<Slot>)
        ensures
            slot == Slot::at_ordinal(i as nat),
    {
        if i == 0 {
            Some(Slot::BODY)
        } else if i == 1 {
            Some(Slot::HEAD)
        } else if i == 2 {
            Some(Slot::HANDS)
        } else if i == 3 {
            Some(Slot::FEET)
        } else if i == 4 {
            Some(Slot::ROPE)
        } else if i == 5 {
            Some(Slot::SPHERE)
        } else {
            None
        }
    }
}

/// A slot converts to its ordinal.
impl From<Slot> for usize {
    fn from(slot: Slot) -> (i: usize) {
        slot.index()
    }
}

impl vstd::std_specs::convert::FromSpecImpl<Slot> for usize {
    open spec fn obeys_from_spec() -> bool {
        true
    }

    open spec fn from_spec(slot: Slot) -> usize {
        slot.ordinal() as usize
    }
}

/// Each position has its own ordinal below `SLOT_COUNT`, and the ordinal
/// leads back to the position.
pub proof fn lemma_slot_ordinal_round_trip(slot: Slot)
    ensures
        slot.ordinal() < SLOT_COUNT,
        Slot::at_ordinal(slot.ordinal()) == Some(slot),
{
}

/// Every ordinal below `SLOT_COUNT` belongs to exactly one position.
pub proof fn lemma_ordinal_slot_round_trip(i: nat)
    ensures
        i < SLOT_COUNT <==> Slot::at_ordinal(i) is Some,
        Slot::at_ordinal(i) is Some ==> Slot::at_ordinal(i)->0.ordinal() == i,
{
}

/// A percentage held exactly, in thousandths of a percent point: `64.8%` is
/// `64_800`.
#[derive(Debug, Clone, Copy, PartialEq, Eq, Hash, Structural)]
pub struct Percent {
    pub thousandths: u64,
}

/// A stat with its magnitude: whole numbers for the absolute stats,
/// percentages for the others.
#[allow(non_camel_case_types)]
#[derive(Debug, Clone, Copy, PartialEq, Eq, Hash, Structural)]
pub enum Stat {
    HP(u32),
    ATK(u32),
    DEF(u32),
    SPD(u32),
    HPP(Percent),
    ATKP(Percent),
    DEFP(Percent),
    /// Break effect.
    BE(Percent),
    /// Effect hit rate.
    EHR(Percent),
    /// Energy regeneration rate.
    ERR(Percent),
    /// Outgoing healing.
    OHB(Percent),
    PHYS(Percent),
    FIRE(Percent),
    ICE(Percent),
    WIND(Percent),
    LIGHTNING(Percent),
    QUANTUM(Percent),
    IMAGINARY(Percent),
    /// Crit rate.
    CR(Percent),
    /// Crit damage.
    CD(Percent),
}

/// The known relic and planar-ornament sets.
#[allow(non_camel_case_types)]
#[derive(Debug, Clone, Copy, PartialEq, Eq, Hash, Structural)]
pub enum RelicSet {
    BAND,
    CHAMPION,
    EAGLE,
    FIRESMITH,
    GENIUS,
    GUARD,
    HERO,
    HUNTER,
    IRON,
    KNIGHT,
    DISCIPLE,
    MESSENGER,
    MUSKETEER,
    PASSERBY,
    PIONEER,
    POET,
    PRISONER,
    ORDEAL,
    SCHOLAR,
    DUKE,
    SOAR,
    THIEF,
    GODDESS,
    WASTELANDER,
    WATCHMAKER,
    WAVESTRIDER,
    BELOBOG,
    BONE,
    KEEL,
    CELESTIAL,
    DURAN,
    GLAMOTH,
    AGELESS,
    FORGE,
    TREE,
    INERT,
    REALM,
    SUNKEN,
    ENTERPRISE,
    PENACONY,
    ARENA,
    DESOLATION,
    STATION,
    SPRIGHTLY,
    BANDITRY,
    PARK,
}

/// Number of known sets, and so of rows of a name table.
pub const SET_COUNT: usize = 46;

impl RelicSet {
    /// The set's ordinal, the row of a name table.
    pub open spec fn ordinal(self) -> nat {
        match self {
            RelicSet::BAND => 0,
            RelicSet::CHAMPION => 1,
            RelicSet::EAGLE => 2,
            RelicSet::FIRESMITH => 3,
            RelicSet::GENIUS => 4,
            RelicSet::GUARD => 5,
            RelicSet::HERO => 6,
            RelicSet::HUNTER => 7,
            RelicSet::IRON => 8,
            RelicSet::KNIGHT => 9,
            RelicSet::DISCIPLE => 10,
            RelicSet::MESSENGER => 11,
            RelicSet::MUSKETEER => 12,
            RelicSet::PASSERBY => 13,
            RelicSet::PIONEER => 14,
            RelicSet::POET => 15,
            RelicSet::PRISONER => 16,
            RelicSet::ORDEAL => 17,
            RelicSet::SCHOLAR => 18,
            RelicSet::DUKE => 19,
            RelicSet::SOAR => 20,
            RelicSet::THIEF => 21,
            RelicSet::GODDESS => 22,
            RelicSet::WASTELANDER => 23,
            RelicSet::WATCHMAKER => 24,
            RelicSet::WAVESTRIDER => 25,
            RelicSet::BELOBOG => 26,
            RelicSet::BONE => 27,
            RelicSet::KEEL => 28,
            RelicSet::CELESTIAL => 29,
            RelicSet::DURAN => 30,
            RelicSet::GLAMOTH => 31,
            RelicSet::AGELESS => 32,
            RelicSet::FORGE => 33,
            RelicSet::TREE => 34,
            RelicSet::INERT => 35,
            RelicSet::REALM => 36,
            RelicSet::SUNKEN => 37,
            RelicSet::ENTERPRISE => 38,
            RelicSet::PENACONY => 39,
            RelicSet::ARENA => 40,
            RelicSet::DESOLATION => 41,
            RelicSet::STATION => 42,
            RelicSet::SPRIGHTLY => 43,
            RelicSet::BANDITRY => 44,
            RelicSet::PARK => 45,
        }
    }

    /// The set's ordinal.
    pub fn index(self) -> (i: usize)
        ensures
            i == self.ordinal(),
            i < SET_COUNT,
    {
        match self {
            RelicSet::BAND => 0,
            RelicSet::CHAMPION => 1,
            RelicSet::EAGLE => 2,
            RelicSet::FIRESMITH => 3,
            RelicSet::GENIUS => 4,
            RelicSet::GUARD => 5,
            RelicSet::HERO => 6,
            RelicSet::HUNTER => 7,
            RelicSet::IRON => 8,
            RelicSet::KNIGHT => 9,
            RelicSet::DISCIPLE => 10,
            RelicSet::MESSENGER => 11,
            RelicSet::MUSKETEER => 12,
            RelicSet::PASSERBY => 13,
            RelicSet::PIONEER => 14,
            RelicSet::POET => 15,
            RelicSet::PRISONER => 16,
            RelicSet::ORDEAL => 17,
            RelicSet::SCHOLAR => 18,
            RelicSet::DUKE => 19,
            RelicSet::SOAR => 20,
            RelicSet::THIEF => 21,
            RelicSet::GODDESS => 22,
            RelicSet::WASTELANDER => 23,
            RelicSet::WATCHMAKER => 24,
            RelicSet::WAVESTRIDER => 25,
            RelicSet::BELOBOG => 26,
            RelicSet::BONE => 27,
            RelicSet::KEEL => 28,
            RelicSet::CELESTIAL => 29,
            RelicSet::DURAN => 30,
            RelicSet::GLAMOTH => 31,
            RelicSet::AGELESS => 32,
            RelicSet::FORGE => 33,
            RelicSet::TREE => 34,
            RelicSet::INERT => 35,
            RelicSet::REALM => 36,
            RelicSet::SUNKEN => 37,
            RelicSet::ENTERPRISE => 38,
            RelicSet::PENACONY => 39,
            RelicSet::ARENA => 40,
            RelicSet::DESOLATION => 41,
            RelicSet::STATION => 42,
            RelicSet::SPRIGHTLY => 43,
            RelicSet::BANDITRY => 44,
            RelicSet::PARK => 45,
        }
    }
}

/// Different sets have different ordinals.
pub proof fn lemma_set_ordinal_injective(a: RelicSet, b: RelicSet)
    ensures
        a.ordinal() < SET_COUNT,
        a.ordinal() == b.ordinal() ==> a == b,
{
}

/// An assembled relic record.
#[derive(Debug, Clone)]
pub struct Relic {
    pub name: String,
    pub set: RelicSet,
    pub slot: Slot,
    pub mainstat: Stat,
    pub substats: Vec<Stat>,
}

/// What a relic holds, as mathematical values.
pub struct RelicView {
    pub name: Seq<char>,
    pub set: RelicSet,
    pub slot: Slot,
    pub mainstat: Stat,
    pub substats: Seq<Stat>,
}

impl View for Relic {
    type V = RelicView;

    open spec fn view(&self) -> RelicView {
        RelicView {
            name: self.name@,
            set: self.set,
            slot: self.slot,
            mainstat: self.mainstat,
            substats: self.substats@,
        }
    }
}

/// Relic equality: name, main stat and sub-stats agree. Set and slot take
/// no part in it.
pub open spec fn same_relic(a: RelicView, b: RelicView) -> bool {
    &&& a.name == b.name
    &&& a.mainstat == b.mainstat
    &&& a.substats == b.substats
}

/// Whether two stat lists hold the same stats in the same order.
pub fn stats_equal(a: &Vec<Stat>, b: &Vec<Stat>) -> (same: bool)
    ensures
        same == (a@ == b@),
{
    if a.len() != b.len() {
        return false;
    }
    let mut i: usize = 0;
    while i < a.len()
        invariant
            i <= a@.len(),
            a@.len() == b@.len(),
            forall|j: int| 0 <= j < i ==> a@[j] == b@[j],
        decreases a@.len() - i,
    {
        if a[i] != b[i] {
            return false;
        }
        i += 1;
    }
    proof {
        assert(a@ =~= b@);
    }
    true
}

impl Relic {
    /// A relic of the given parts.
    pub fn new(name: String, set: RelicSet, slot: Slot, mainstat: Stat, substats: Vec<Stat>) -> (relic:
        Self)
        ensures
            relic@ == (RelicView {
                name: name@,
                set: set,
                slot: slot,
                mainstat: mainstat,
                substats: substats@,
            }),
    {
        Self { name, set, slot, mainstat, substats }
    }
}

/// `==` on relics is `same_relic` on what they hold.
impl PartialEq for Relic {
    fn eq(&self, other: &Self) -> (same: bool) {
        self.name == other.name && self.mainstat == other.mainstat && stats_equal(
            &self.substats,
            &other.substats,
        )
    }
}

impl Eq for Relic {

}

impl vstd::std_specs::cmp::PartialEqSpecImpl for Relic {
    open spec fn obeys_eq_spec() -> bool {
        true
    }

    open spec fn eq_spec(&self, other: &Self) -> bool {
        same_relic(self@, other@)
    }
}

/// Relics that differ only in set or slot are equal.
pub proof fn lemma_equality_ignores_set_and_slot(a: Relic, b: Relic)
    requires
        a.name@ == b.name@,
        a.mainstat == b.mainstat,
        a.substats@ == b.substats@,
    ensures
        a.eq_spec(&b),
{
}

/// Relic equality is an equivalence.
pub proof fn lemma_same_relic_equivalence(a: RelicView, b: RelicView, c: RelicView)
    ensures
        same_relic(a, a),
        same_relic(a, b) ==> same_relic(b, a),
        same_relic(a, b) && same_relic(b, c) ==> same_relic(a, c),
{
}

} // verus!
