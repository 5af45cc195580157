//! Name resolution: the table from (set, slot) to the item's canonical
//! name, built from the set data and the item data.

use vstd::prelude::*;
use crate::parser::set::{parse_set, set_of_text};
use crate::parser::slot::{parse_slot, slot_of_text};
use crate::relic::{lemma_set_ordinal_injective, RelicSet, Slot, SET_COUNT, SLOT_COUNT};

verus! {

/// An entry of the set data: the set's identifier and display name.
#[derive(Debug, Clone)]
pub struct RelicSetStub {
    pub id: String,
    pub name: String,
}

/// An entry of the item data: the identifier of the item's set, the term
/// for its slot, and its display name.
#[derive(Debug, Clone)]
pub struct RelicStub {
    pub set_id: String,
    pub slot: String,
    pub name: String,
}

/// An entry of the set data as mathematical values: the key under which the
/// entry is filed, and the set's display name.
pub struct SetEntry {
    pub key: Seq<char>,
    pub name: Seq<char>,
}

/// An entry of the item data as mathematical values.
pub struct ItemEntry {
    pub set_id: Seq<char>,
    pub slot: Seq<char>,
    pub name: Seq<char>,
}

/// The set data as a sequence of entries.
pub open spec fn set_entries(stubs: Seq<(String, RelicSetStub)>) -> Seq<SetEntry> {
    Seq::new(stubs.len(), |i: int| SetEntry { key: stubs[i].0@, name: stubs[i].1.name@ })
}

/// The item data as a sequence of entries.
pub open spec fn item_entries(stubs: Seq<RelicStub>) -> Seq<ItemEntry> {
    Seq::new(
        stubs.len(),
        |i: int| ItemEntry { set_id: stubs[i].set_id@, slot: stubs[i].slot@, name: stubs[i].name@ },
    )
}

/// A name table as a mathematical value: for each set that has a row, the
/// six names of the row by slot ordinal.
pub type Names = Map<RelicSet, Seq<Seq<char>>>;

/// Why an item cannot be entered into the table.
#[derive(Debug, Clone, Copy, PartialEq, Eq, Structural)]
pub enum Defect {
    /// The set data has no entry under the item's set identifier.
    UnknownSetId,
    /// The set's display name selects no known set.
    UnknownSetName,
    /// The item's slot term names no slot.
    UnknownSlot,
}

/// The first defective item of the item data, by position, and its defect.
#[derive(Debug, Clone, Copy, PartialEq, Eq, Structural)]
pub struct TableError {
    pub item: usize,
    pub defect: Defect,
}

/// Whether the set data holds an entry filed under `id`.
pub open spec fn holds_key(sets: Seq<SetEntry>, id: Seq<char>) -> bool {
    exists|j: int| 0 <= j < sets.len() && (#[trigger] sets[j]).key == id
}

/// The display name filed under `id`: that of the first entry with that key.
pub open spec fn set_name_for(sets: Seq<SetEntry>, id: Seq<char>) -> Option<Seq<char>>
    decreases sets.len(),
{
    if sets.len() == 0 {
        None
    } else if sets[0].key == id {
        Some(sets[0].name)
    } else {
        set_name_for(sets.drop_first(), id)
    }
}

/// The row and column of the table that an item belongs to, or its defect.
pub open spec fn resolve(sets: Seq<SetEntry>, item: ItemEntry) -> Result<(RelicSet, Slot), Defect> {
    match set_name_for(sets, item.set_id) {
        None => Err(Defect::UnknownSetId),
        Some(name) => match set_of_text(name) {
            None => Err(Defect::UnknownSetName),
            Some(set) => match slot_of_text(item.slot) {
                None => Err(Defect::UnknownSlot),
                Some(slot) => Ok((set, slot)),
            },
        },
    }
}

/// A fresh row: six empty names.
pub open spec fn blank_row() -> Seq<Seq<char>> {
    Seq::new(SLOT_COUNT as nat, |k: int| Seq::<char>::empty())
}

/// `names` after `name` is written at (`set`, `slot`); the row is created
/// blank where the set had none.
pub open spec fn with_name(names: Names, set: RelicSet, slot: Slot, name: Seq<char>) -> Names {
    let row = if names.contains_key(set) {
        names[set]
    } else {
        blank_row()
    };
    names.insert(set, row.update(slot.ordinal() as int, name))
}

/// The table that the data describes: every item written in order, a later
/// item overwriting an earlier one at the same place. Where an item is
/// defective there is no table, only the first such item and its defect.
pub open spec fn name_table_of(sets: Seq<SetEntry>, items: Seq<ItemEntry>) -> Result<
    Names,
    TableError,
>
    decreases items.len(),
{
    if items.len() == 0 {
        Ok(Map::empty())
    } else {
        match name_table_of(sets, items.drop_last()) {
            Err(e) => Err(e),
            Ok(names) => match resolve(sets, items.last()) {
                Ok((set, slot)) => Ok(with_name(names, set, slot, items.last().name)),
                Err(defect) => Err(TableError { item: (items.len() - 1) as usize, defect }),
            },
        }
    }
}

/// The table from (set, slot) to item name. The rows lie in one vector, the
/// row of a set at the set's ordinal and a name at the slot's ordinal within
/// the row, so that a lookup is index arithmetic that the proofs follow.
pub struct NameTable {
    present: Vec<bool>,
    names: Vec<String>,
}

impl View for NameTable {
    type V = Names;

    closed spec fn view(&self) -> Names {
        Map::new(
            |set: RelicSet| self.present@[set.ordinal() as int],
            |set: RelicSet|
                Seq::new(
                    SLOT_COUNT as nat,
                    |k: int| self.names@[set.ordinal() * SLOT_COUNT + k]@,
                ),
        )
    }
}

impl NameTable {
    #[verifier::type_invariant]
    spec fn well_formed(self) -> bool {
        &&& self.present@.len() == SET_COUNT
        &&& self.names@.len() == SET_COUNT * SLOT_COUNT
        &&& forall|row: int, k: int|
            0 <= row < SET_COUNT && 0 <= k < SLOT_COUNT && !self.present@[row]
                ==> #[trigger] self.names@[row * SLOT_COUNT + k]@ == Seq::<char>::empty()
    }

    /// A table without rows.
    pub fn new() -> (table: Self)
        ensures
            table@ == Map::<RelicSet, Seq<Seq<char>>>::empty(),
    {
        let mut present: Vec<bool> = Vec::new();
        let mut names: Vec<String> = Vec::new();
        let mut i: usize = 0;
        while i < SET_COUNT
            invariant
                i <= SET_COUNT,
                present@.len() == i,
                names@.len() == i * SLOT_COUNT,
                forall|j: int| 0 <= j < i ==> !present@[j],
                forall|j: int| 0 <= j < names@.len() ==> names@[j]@ == Seq::<char>::empty(),
            decreases SET_COUNT - i,
        {
            present.push(false);
            let mut k: usize = 0;
            while k < SLOT_COUNT
                invariant
                    k <= SLOT_COUNT,
                    i < SET_COUNT,
                    names@.len() == i * SLOT_COUNT + k,
                    forall|j: int| 0 <= j < names@.len() ==> names@[j]@ == Seq::<char>::empty(),
                decreases SLOT_COUNT - k,
            {
                names.push(String::new());
                k += 1;
            }
            i += 1;
        }
        let table = NameTable { present, names };
        proof {
            assert forall|set: RelicSet| !table@.contains_key(set) by {
                lemma_set_ordinal_injective(set, set);
            }
            assert(table@ =~= Map::<RelicSet, Seq<Seq<char>>>::empty());
        }
        table
    }

    /// Whether the table has a row for `set`.
    pub fn has_row(&self, set: RelicSet) -> (b: bool)
        ensures
            b == self@.contains_key(set),
    {
        proof {
            use_type_invariant(self);
        }
        self.present[set.index()]
    }

    /// The name at (`set`, `slot`), where the table has a row for the set.
    pub fn name(&self, set: RelicSet, slot: Slot) -> (name: Option<String>)
        ensures
            self@.contains_key(set) ==> name is Some && name->0@ == self@[set][
                slot.ordinal() as int
            ],
            !self@.contains_key(set) ==> name is None,
    {
        proof {
            use_type_invariant(self);
        }
        let row = set.index();
        if self.present[row] {
            Some(self.names[row * SLOT_COUNT + slot.index()].clone())
        } else {
            None
        }
    }

    /// Every row holds six names.
    pub proof fn lemma_row_len(self, set: RelicSet)
        requires
            self@.contains_key(set),
        ensures
            self@[set].len() == SLOT_COUNT,
    {
    }

    /// The table with `name` written at (`set`, `slot`), the row being created
    /// where needed.
    pub fn insert(self, set: RelicSet, slot: Slot, name: String) -> (table: Self)
        ensures
            table@ == with_name(self@, set, slot, name@),
    {
        proof {
            use_type_invariant(&self);
        }
        let row = set.index();
        let column = slot.index();
        let ghost before = self;
        let ghost written = name@;
        let NameTable { mut present, mut names } = self;
        present.set(row, true);
        names.set(row * SLOT_COUNT + column, name);
        let table = NameTable { present, names };
        proof {
            let ghost expected = with_name(before@, set, slot, written);
            assert forall|other: RelicSet| table@.contains_key(other) == expected.contains_key(
                other,
            ) by {
                lemma_set_ordinal_injective(other, set);
            }
            assert forall|other: RelicSet| table@.contains_key(other) implies table@[other]
                =~= expected[other] by {
                lemma_set_ordinal_injective(other, set);
                if other != set {
                    assert(table@[other] =~= before@[other]);
                } else if before@.contains_key(set) {
                    assert(table@[set] =~= before@[set].update(column as int, written));
                } else {
                    assert(table@[set] =~= blank_row().update(column as int, written));
                }
            }
            assert(table@ =~= expected);
        }
        table
    }
}

/// A name written at a place of the table stands there afterwards, in the
/// column of the slot's ordinal, and the other names of the row stay.
pub proof fn lemma_written_name_is_found(
    names: Names,
    set: RelicSet,
    slot: Slot,
    name: Seq<char>,
    other: Slot,
)
    requires
        names.contains_key(set) ==> names[set].len() == SLOT_COUNT,
    ensures
        with_name(names, set, slot, name).contains_key(set),
        with_name(names, set, slot, name)[set].len() == SLOT_COUNT,
        with_name(names, set, slot, name)[set][slot.ordinal() as int] == name,
        other != slot && names.contains_key(set) ==> with_name(names, set, slot, name)[set][
            other.ordinal() as int
        ] == names[set][other.ordinal() as int],
        other != slot && !names.contains_key(set) ==> with_name(names, set, slot, name)[set][
            other.ordinal() as int
        ] == Seq::<char>::empty(),
{
}

/// Once a prefix of the item data has a defective item, the whole data has
/// the same first defect.
pub proof fn lemma_defect_persists(sets: Seq<SetEntry>, items: Seq<ItemEntry>, n: int)
    requires
        0 <= n <= items.len(),
        name_table_of(sets, items.take(n)) is Err,
    ensures
        name_table_of(sets, items) == name_table_of(sets, items.take(n)),
    decreases items.len() - n,
{
    if n == items.len() {
        assert(items.take(n) =~= items);
    } else {
        assert(items.drop_last().take(n) =~= items.take(n));
        lemma_defect_persists(sets, items.drop_last(), n);
    }
}

/// There is a table exactly where every item of the item data resolves.
pub proof fn lemma_table_needs_every_item(sets: Seq<SetEntry>, items: Seq<ItemEntry>)
    ensures
        name_table_of(sets, items) is Ok <==> forall|i: int|
            0 <= i < items.len() ==> resolve(sets, #[trigger] items[i]) is Ok,
    decreases items.len(),
{
    if items.len() > 0 {
        let front = items.drop_last();
        lemma_table_needs_every_item(sets, front);
        if name_table_of(sets, items) is Ok {
            assert forall|i: int| 0 <= i < items.len() implies resolve(
                sets,
                #[trigger] items[i],
            ) is Ok by {
                if i < items.len() - 1 {
                    assert(front[i] == items[i]);
                }
            }
        }
        if forall|i: int| 0 <= i < items.len() ==> resolve(sets, #[trigger] items[i]) is Ok {
            assert forall|i: int| 0 <= i < front.len() implies resolve(
                sets,
                #[trigger] front[i],
            ) is Ok by {
                assert(front[i] == items[i]);
            }
            assert(resolve(sets, items.last()) is Ok);
        }
    }
}

/// A display name is found under `id` exactly where the set data holds an
/// entry filed under `id`.
pub proof fn lemma_name_found_where_key_is_held(sets: Seq<SetEntry>, id: Seq<char>)
    ensures
        set_name_for(sets, id) is Some <==> holds_key(sets, id),
    decreases sets.len(),
{
    if sets.len() > 0 {
        let rest = sets.drop_first();
        lemma_name_found_where_key_is_held(rest, id);
        if sets[0].key != id {
            if holds_key(sets, id) {
                let j = choose|j: int| 0 <= j < sets.len() && (#[trigger] sets[j]).key == id;
                assert(rest[j - 1] == sets[j]);
            }
            if holds_key(rest, id) {
                let j = choose|j: int| 0 <= j < rest.len() && (#[trigger] rest[j]).key == id;
                assert(sets[j + 1] == rest[j]);
            }
        }
    }
}

/// A dangling reference leaves no table: where some item names a set
/// identifier under which the set data holds no entry, the data is rejected
/// as a whole, whatever the other items are.
pub proof fn lemma_unknown_set_id_is_rejected(
    sets: Seq<SetEntry>,
    items: Seq<ItemEntry>,
    i: int,
)
    requires
        0 <= i < items.len(),
        !holds_key(sets, items[i].set_id),
    ensures
        name_table_of(sets, items) is Err,
{
    lemma_table_needs_every_item(sets, items);
    lemma_name_found_where_key_is_held(sets, items[i].set_id);
    assert(resolve(sets, items[i]) is Err);
}

/// Every item is placed: in a table built from data, the place of an item
/// holds the item's name, unless a later item belongs to the same place.
pub proof fn lemma_last_item_at_a_place_is_found(
    sets: Seq<SetEntry>,
    items: Seq<ItemEntry>,
    i: int,
)
    requires
        name_table_of(sets, items) is Ok,
        0 <= i < items.len(),
        forall|j: int|
            i < j < items.len() ==> resolve(sets, #[trigger] items[j]) != resolve(sets, items[i]),
    ensures
        resolve(sets, items[i]) is Ok,
        ({
            let (set, slot) = resolve(sets, items[i])->Ok_0;
            let names = name_table_of(sets, items)->Ok_0;
            &&& names.contains_key(set)
            &&& names[set][slot.ordinal() as int] == items[i].name
        }),
    decreases items.len(),
{
    let front = items.drop_last();
    let before = name_table_of(sets, front)->Ok_0;
    let (last_set, last_slot) = resolve(sets, items.last())->Ok_0;
    if before.contains_key(last_set) {
        lemma_built_rows_have_six_names(sets, front, last_set);
    }
    if i < items.len() - 1 {
        assert(front[i] == items[i]);
        assert forall|j: int| i < j < front.len() implies resolve(sets, #[trigger] front[j])
            != resolve(sets, front[i]) by {
            assert(front[j] == items[j]);
        }
        lemma_last_item_at_a_place_is_found(sets, front, i);
        let (set, slot) = resolve(sets, items[i])->Ok_0;
        assert(resolve(sets, items[items.len() - 1]) != resolve(sets, items[i]));
        assert(last_set != set || last_slot != slot);
    }
}

/// Every row of a table built from data holds six names.
pub proof fn lemma_built_rows_have_six_names(
    sets: Seq<SetEntry>,
    items: Seq<ItemEntry>,
    set: RelicSet,
)
    requires
        name_table_of(sets, items) is Ok,
        name_table_of(sets, items)->Ok_0.contains_key(set),
    ensures
        name_table_of(sets, items)->Ok_0[set].len() == SLOT_COUNT,
    decreases items.len(),
{
    if items.len() > 0 {
        let front = name_table_of(sets, items.drop_last())->Ok_0;
        if front.contains_key(set) {
            lemma_built_rows_have_six_names(sets, items.drop_last(), set);
        }
    }
}

fn find_set_name<'a>(sets: &'a Vec<(String, RelicSetStub)>, id: &String) -> (name: Option<
    &'a String,
>)
    ensures
        match name {
            Some(found) => set_name_for(set_entries(sets@), id@) == Some(found@),
            None => set_name_for(set_entries(sets@), id@) is None,
        },
{
    let ghost entries = set_entries(sets@);
    let mut i: usize = 0;
    proof {
        assert(entries.skip(0) =~= entries);
    }
    while i < sets.len()
        invariant
            i <= sets@.len(),
            entries == set_entries(sets@),
            set_name_for(entries, id@) == set_name_for(entries.skip(i as int), id@),
        decreases sets@.len() - i,
    {
        if sets[i].0 == *id {
            return Some(&sets[i].1.name);
        }
        proof {
            assert(entries.skip(i as int).drop_first() =~= entries.skip(i + 1));
        }
        i += 1;
    }
    None
}

fn resolve_item(sets: &Vec<(String, RelicSetStub)>, item: &RelicStub) -> (place: Result<
    (RelicSet, Slot),
    Defect,
>)
    ensures
        place == resolve(
            set_entries(sets@),
            ItemEntry { set_id: item.set_id@, slot: item.slot@, name: item.name@ },
        ),
{
    match find_set_name(sets, &item.set_id) {
        None => Err(Defect::UnknownSetId),
        Some(name) => match parse_set(name.as_str()) {
            None => Err(Defect::UnknownSetName),
            Some(set) => match parse_slot(item.slot.as_str()) {
                None => Err(Defect::UnknownSlot),
                Some(slot) => Ok((set, slot)),
            },
        },
    }
}

/// Builds the name table from the set data and the item data. `sets` holds
/// each entry of the set data with the key it is filed under, as a list that
/// is searched from the front; `items` holds the entries of the item data in
/// the order in which they are to be written.
///
/// Fails on the first item that cannot be entered: one that refers to a set
/// identifier that the set data lacks, or whose set name or slot term is not
/// understood. No table is handed out then.
pub fn build_name_table(sets: &Vec<(String, RelicSetStub)>, items: &Vec<RelicStub>) -> (built:
    Result<NameTable, TableError>)
    ensures
        match built {
            Ok(table) => name_table_of(set_entries(sets@), item_entries(items@)) == Ok::<
                Names,
                TableError,
            >(table@),
            Err(e) => name_table_of(set_entries(sets@), item_entries(items@)) == Err::<
                Names,
                TableError,
            >(e),
        },
        built is Ok <==> forall|i: int|
            0 <= i < items@.len() ==> resolve(
                set_entries(sets@),
                #[trigger] item_entries(items@)[i],
            ) is Ok,
        (exists|i: int|
            0 <= i < items@.len() && !holds_key(
                set_entries(sets@),
                (#[trigger] items@[i]).set_id@,
            )) ==> built is Err,
{
    let ghost entries = set_entries(sets@);
    let ghost all = item_entries(items@);
    let mut table = NameTable::new();
    let mut i: usize = 0;
    proof {
        assert(all.take(0) =~= Seq::<ItemEntry>::empty());
        lemma_table_needs_every_item(entries, all);
        if exists|i: int|
            0 <= i < items@.len() && !holds_key(entries, (#[trigger] items@[i]).set_id@) {
            let k = choose|i: int|
                0 <= i < items@.len() && !holds_key(entries, (#[trigger] items@[i]).set_id@);
            assert(all[k].set_id == items@[k].set_id@);
            lemma_unknown_set_id_is_rejected(entries, all, k);
        }
    }
    while i < items.len()
        invariant
            i <= items@.len(),
            entries == set_entries(sets@),
            all == item_entries(items@),
            name_table_of(entries, all.take(i as int)) == Ok::<Names, TableError>(table@),
        decreases items@.len() - i,
    {
        let item = &items[i];
        proof {
            let ghost upto = all.take(i + 1);
            assert(upto.drop_last() =~= all.take(i as int));
            assert(upto.last() == all[i as int]);
        }
        match resolve_item(sets, item) {
            Ok((set, slot)) => {
                table = table.insert(set, slot, item.name.clone());
            },
            Err(defect) => {
                proof {
                    lemma_defect_persists(entries, all, i + 1);
                }
                return Err(TableError { item: i, defect });
            },
        }
        i += 1;
    }
    proof {
        assert(all.take(i as int) =~= all);
    }
    Ok(table)
}

} // verus!
