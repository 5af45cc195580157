use relic_scanner::names::{build_name_table, Defect, NameTable, RelicSetStub, RelicStub, TableError};
use relic_scanner::relic::{RelicSet, Slot};

fn set_entry(id: &str, name: &str) -> (String, RelicSetStub) {
    (
        id.to_string(),
        RelicSetStub { id: id.to_string(), name: name.to_string() },
    )
}

fn item(set_id: &str, slot: &str, name: &str) -> RelicStub {
    RelicStub {
        set_id: set_id.to_string(),
        slot: slot.to_string(),
        name: name.to_string(),
    }
}

fn sets() -> Vec<(String, RelicSetStub)> {
    vec![
        set_entry("101", "Passerby of Wandering Cloud"),
        set_entry("102", "Musketeer of Wild Wheat"),
        set_entry("301", "Space Sealing Station"),
        set_entry("999", "Set of No Renown"),
    ]
}

#[test]
fn names_are_filed_by_set_and_slot() {
    let items = vec![
        item("101", "HEAD", "Passerby's Rejuvenated Wooden Hairstick"),
        item("101", "HAND", "Passerby's Roaming Dragon Bracer"),
        item("101", "BODY", "Passerby's Ragged Embroided Coat"),
        item("101", "FOOT", "Passerby's Stygian Hiking Boots"),
        item("301", "NECK", "Herta's Space Station"),
        item("301", "OBJECT", "Herta's Wandering Trek"),
    ];
    let table = build_name_table(&sets(), &items).unwrap();
    assert!(table.has_row(RelicSet::PASSERBY));
    assert!(table.has_row(RelicSet::STATION));
    assert!(!table.has_row(RelicSet::MUSKETEER));
    assert_eq!(
        table.name(RelicSet::PASSERBY, Slot::HEAD),
        Some("Passerby's Rejuvenated Wooden Hairstick".to_string())
    );
    assert_eq!(
        table.name(RelicSet::PASSERBY, Slot::HANDS),
        Some("Passerby's Roaming Dragon Bracer".to_string())
    );
    assert_eq!(
        table.name(RelicSet::PASSERBY, Slot::BODY),
        Some("Passerby's Ragged Embroided Coat".to_string())
    );
    assert_eq!(
        table.name(RelicSet::PASSERBY, Slot::FEET),
        Some("Passerby's Stygian Hiking Boots".to_string())
    );
    assert_eq!(
        table.name(RelicSet::STATION, Slot::SPHERE),
        Some("Herta's Space Station".to_string())
    );
    assert_eq!(
        table.name(RelicSet::STATION, Slot::ROPE),
        Some("Herta's Wandering Trek".to_string())
    );
    assert_eq!(table.name(RelicSet::MUSKETEER, Slot::HEAD), None);
}

#[test]
fn a_new_row_is_blank_but_for_the_name_written() {
    let items = vec![item("102", "HEAD", "Musketeer's Wild Wheat Felt Hat")];
    let table = build_name_table(&sets(), &items).unwrap();
    assert_eq!(
        table.name(RelicSet::MUSKETEER, Slot::HEAD),
        Some("Musketeer's Wild Wheat Felt Hat".to_string())
    );
    for slot in [Slot::BODY, Slot::HANDS, Slot::FEET, Slot::ROPE, Slot::SPHERE] {
        assert_eq!(table.name(RelicSet::MUSKETEER, slot), Some(String::new()));
    }
}

#[test]
fn a_later_item_overwrites_an_earlier_one() {
    let items = vec![
        item("102", "HEAD", "first"),
        item("102", "BODY", "coat"),
        item("102", "head", "second"),
    ];
    let table = build_name_table(&sets(), &items).unwrap();
    assert_eq!(
        table.name(RelicSet::MUSKETEER, Slot::HEAD),
        Some("second".to_string())
    );
    assert_eq!(
        table.name(RelicSet::MUSKETEER, Slot::BODY),
        Some("coat".to_string())
    );
}

#[test]
fn no_items_give_an_empty_table() {
    let table = build_name_table(&sets(), &Vec::new()).unwrap();
    assert!(!table.has_row(RelicSet::PASSERBY));
    assert_eq!(table.name(RelicSet::PASSERBY, Slot::HEAD), None);
    let fresh = NameTable::new();
    assert!(!fresh.has_row(RelicSet::PARK));
}

#[test]
fn a_dangling_set_id_fails_the_build() {
    let items = vec![
        item("101", "HEAD", "Passerby's Rejuvenated Wooden Hairstick"),
        item("777", "HEAD", "Nobody's Hat"),
        item("101", "BODY", "Passerby's Ragged Embroided Coat"),
    ];
    match build_name_table(&sets(), &items) {
        Err(e) => assert_eq!(e, TableError { item: 1, defect: Defect::UnknownSetId }),
        Ok(_) => panic!("a table was built"),
    }
    match build_name_table(&Vec::new(), &items) {
        Err(e) => assert_eq!(e, TableError { item: 0, defect: Defect::UnknownSetId }),
        Ok(_) => panic!("a table was built"),
    }
}

#[test]
fn an_unknown_set_name_fails_the_build() {
    let items = vec![item("999", "HEAD", "Hat of No Renown")];
    match build_name_table(&sets(), &items) {
        Err(e) => assert_eq!(e, TableError { item: 0, defect: Defect::UnknownSetName }),
        Ok(_) => panic!("a table was built"),
    }
}

#[test]
fn an_unknown_slot_term_fails_the_build() {
    let items = vec![
        item("101", "HEAD", "Passerby's Rejuvenated Wooden Hairstick"),
        item("101", "BODY", "Passerby's Ragged Embroided Coat"),
        item("101", "TAIL", "Passerby's Tail"),
    ];
    match build_name_table(&sets(), &items) {
        Err(e) => assert_eq!(e, TableError { item: 2, defect: Defect::UnknownSlot }),
        Ok(_) => panic!("a table was built"),
    }
}

#[test]
fn the_first_defect_is_reported() {
    let items = vec![
        item("101", "TAIL", "Passerby's Tail"),
        item("777", "HEAD", "Nobody's Hat"),
    ];
    match build_name_table(&sets(), &items) {
        Err(e) => assert_eq!(e, TableError { item: 0, defect: Defect::UnknownSlot }),
        Ok(_) => panic!("a table was built"),
    }
    // The set identifier is looked up before the slot term is read.
    let both = vec![item("777", "TAIL", "Nobody's Tail")];
    match build_name_table(&sets(), &both) {
        Err(e) => assert_eq!(e, TableError { item: 0, defect: Defect::UnknownSetId }),
        Ok(_) => panic!("a table was built"),
    }
}

#[test]
fn the_entry_is_found_by_its_key() {
    let filed = vec![
        (
            "a".to_string(),
            RelicSetStub { id: "b".to_string(), name: "Rutilant Arena".to_string() },
        ),
        (
            "a".to_string(),
            RelicSetStub { id: "a".to_string(), name: "Inert Salsotto".to_string() },
        ),
    ];
    let table = build_name_table(&filed, &vec![item("a", "NECK", "Arena")]).unwrap();
    assert!(table.has_row(RelicSet::ARENA));
    assert!(!table.has_row(RelicSet::INERT));
    match build_name_table(&filed, &vec![item("b", "NECK", "Arena")]) {
        Err(e) => assert_eq!(e.defect, Defect::UnknownSetId),
        Ok(_) => panic!("a table was built"),
    }
}

#[test]
fn inserting_by_hand() {
    let table = NameTable::new()
        .insert(RelicSet::BAND, Slot::ROPE, "rope".to_string())
        .insert(RelicSet::PARK, Slot::BODY, "body".to_string())
        .insert(RelicSet::BAND, Slot::HEAD, "head".to_string());
    assert_eq!(table.name(RelicSet::BAND, Slot::ROPE), Some("rope".to_string()));
    assert_eq!(table.name(RelicSet::BAND, Slot::HEAD), Some("head".to_string()));
    assert_eq!(table.name(RelicSet::BAND, Slot::BODY), Some(String::new()));
    assert_eq!(table.name(RelicSet::PARK, Slot::BODY), Some("body".to_string()));
    assert_eq!(table.name(RelicSet::PARK, Slot::ROPE), Some(String::new()));
    assert_eq!(table.name(RelicSet::IRON, Slot::ROPE), None);
}

#[test]
fn set_ordinals_are_rows() {
    assert_eq!(RelicSet::BAND.index(), 0);
    assert_eq!(RelicSet::WAVESTRIDER.index(), 25);
    assert_eq!(RelicSet::BELOBOG.index(), 26);
    assert_eq!(RelicSet::PARK.index(), 45);
}
