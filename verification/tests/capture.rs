use relic_scanner::capture::{
    capture_step, parse_text, relic_from_bands, Action, CaptureLoop, ScanError, SETTLE_SECONDS,
};
use relic_scanner::names::NameTable;
use relic_scanner::ocr::{get_text, keep_lines, OcrError};
use relic_scanner::parser::assembly::{RelicError, Unread};
use relic_scanner::parser::parse_relic;
use relic_scanner::raster::Raster;
use relic_scanner::relic::{stats_equal, Percent, Relic, RelicSet, Slot, Stat};

fn lines(texts: &[&str]) -> Vec<String> {
    texts.iter().map(|t| t.to_string()).collect()
}

fn pct(thousandths: u64) -> Percent {
    Percent { thousandths }
}

fn table() -> NameTable {
    NameTable::new()
        .insert(RelicSet::POET, Slot::HEAD, "Poet's Dill Wreath".to_string())
        .insert(RelicSet::POET, Slot::BODY, "Poet's Star-Studded Skirt".to_string())
        .insert(RelicSet::DUKE, Slot::HEAD, "Grand Duke's Crown of Netherflame".to_string())
}

fn relic(name: &str, set: RelicSet, slot: Slot, main: Stat, subs: Vec<Stat>) -> Relic {
    Relic::new(name.to_string(), set, slot, main, subs)
}

fn blank(width: u32, height: u32) -> Raster {
    Raster::new(width, height, vec![255; (width * height * 4) as usize]).unwrap()
}

/// An engine without models: it takes an image in and then fails.
fn engine() -> ocrs::OcrEngine {
    ocrs::OcrEngine::new(ocrs::OcrEngineParams::default()).unwrap()
}

#[test]
fn a_relic_is_assembled_from_its_lines() {
    let found = parse_relic(
        &lines(&["Poet's Dill Wreath", "Head", "+15"]),
        &lines(&[
            "HP 705",
            "CRIT Rate 2.9%",
            "CRIT DMG 5.8%",
            "ATK 4.3%",
            "SPD 2",
        ]),
        "Poet of Mourning Collected Works",
        &table(),
        &mut Vec::new(),
    )
    .unwrap();
    assert_eq!(found.name, "Poet's Dill Wreath");
    assert_eq!(found.set, RelicSet::POET);
    assert_eq!(found.slot, Slot::HEAD);
    assert_eq!(found.mainstat, Stat::HP(705));
    assert_eq!(
        found.substats,
        vec![
            Stat::CR(pct(2_900)),
            Stat::CD(pct(5_800)),
            Stat::ATKP(pct(4_300)),
            Stat::SPD(2),
        ]
    );
}

#[test]
fn the_name_comes_from_the_table_not_from_the_lines() {
    let found = parse_relic(
        &lines(&["P0et's Di11 Wreath", "Body"]),
        &lines(&["HP 43.2%"]),
        "Poet of Mourning Collected Works",
        &table(),
        &mut Vec::new(),
    )
    .unwrap();
    assert_eq!(found.name, "Poet's Star-Studded Skirt");
    assert_eq!(found.slot, Slot::BODY);
    assert_eq!(found.mainstat, Stat::HPP(pct(43_200)));
    assert!(found.substats.is_empty());
}

#[test]
fn the_first_slot_named_is_taken() {
    let found = parse_relic(
        &lines(&["Lv. 15", "Body", "Head"]),
        &lines(&["HP 705"]),
        "Poet",
        &table(),
        &mut Vec::new(),
    )
    .unwrap();
    assert_eq!(found.slot, Slot::BODY);
}

#[test]
fn stat_lines_that_denote_nothing_are_dropped() {
    let found = parse_relic(
        &lines(&["Head"]),
        &lines(&["????", "HP 705", "garbage", "SPD 2", "ATK x"]),
        "Poet",
        &table(),
        &mut Vec::new(),
    )
    .unwrap();
    assert_eq!(found.mainstat, Stat::HP(705));
    assert_eq!(found.substats, vec![Stat::SPD(2)]);
}

#[test]
fn a_slot_without_a_written_name_has_the_blank_name() {
    let found = parse_relic(&lines(&["Feet"]), &lines(&["SPD 25"]), "Poet", &table(), &mut Vec::new()).unwrap();
    assert_eq!(found.name, "");
    assert_eq!(found.slot, Slot::FEET);
}

#[test]
fn defects_are_reported_in_order() {
    let t = table();
    let info = lines(&["Head"]);
    let stats = lines(&["HP 705"]);
    assert_eq!(
        parse_relic(&lines(&["Helmet"]), &lines(&["x"]), "Nothing", &t, &mut Vec::new()).err(),
        Some(RelicError::NoSlot)
    );
    assert_eq!(
        parse_relic(&Vec::new(), &stats, "Poet", &t, &mut Vec::new()).err(),
        Some(RelicError::NoSlot)
    );
    assert_eq!(
        parse_relic(&info, &lines(&["x"]), "Nothing", &t, &mut Vec::new()).err(),
        Some(RelicError::NoMainStat)
    );
    assert_eq!(
        parse_relic(&info, &Vec::new(), "Poet", &t, &mut Vec::new()).err(),
        Some(RelicError::NoMainStat)
    );
    assert_eq!(
        parse_relic(&info, &stats, "Nothing", &t, &mut Vec::new()).err(),
        Some(RelicError::UnknownSet)
    );
    assert_eq!(
        parse_relic(&info, &stats, "Iron Cavalry Against the Scourge", &t, &mut Vec::new()).err(),
        Some(RelicError::NoName)
    );
}

#[test]
fn each_stat_band_gives_its_first_line() {
    let bands = vec![
        lines(&["HP 705", "ATK 1"]),
        Vec::new(),
        lines(&["CRIT Rate 2.9%"]),
        lines(&["not a stat", "SPD 9"]),
        lines(&["SPD 2"]),
    ];
    let found = relic_from_bands(
        &lines(&["The Ashblazing Grand Duke", "Poet"]),
        &lines(&["Head"]),
        &bands,
        &table(),
        &mut Vec::new(),
    )
    .unwrap();
    assert_eq!(found.name, "Grand Duke's Crown of Netherflame");
    assert_eq!(found.set, RelicSet::DUKE);
    assert_eq!(found.mainstat, Stat::HP(705));
    assert_eq!(found.substats, vec![Stat::CR(pct(2_900)), Stat::SPD(2)]);
}

#[test]
fn a_set_band_without_a_line_makes_no_relic() {
    let bands = vec![lines(&["HP 705"])];
    assert_eq!(
        relic_from_bands(&Vec::new(), &lines(&["Head"]), &bands, &table(), &mut Vec::new()).err(),
        Some(RelicError::NoSetLine)
    );
    assert_eq!(
        relic_from_bands(&Vec::new(), &Vec::new(), &Vec::new(), &table(), &mut Vec::new()).err(),
        Some(RelicError::NoSetLine)
    );
    assert_eq!(
        relic_from_bands(&lines(&["Poet"]), &lines(&["Head"]), &Vec::new(), &table(), &mut Vec::new()).err(),
        Some(RelicError::NoMainStat)
    );
}

#[test]
fn short_and_missing_lines_are_noise() {
    let found = vec![
        Some("HP 705".to_string()),
        None,
        Some("x".to_string()),
        Some(String::new()),
        Some("ab".to_string()),
        None,
        Some("\u{e9}".to_string()),
        Some("\u{e9}\u{e9}".to_string()),
    ];
    assert_eq!(
        keep_lines(found),
        vec!["HP 705".to_string(), "ab".to_string(), "\u{e9}\u{e9}".to_string()]
    );
    assert!(keep_lines(Vec::new()).is_empty());
    assert!(keep_lines(vec![None, None]).is_empty());
}

#[test]
fn an_engine_without_models_reports_its_failure() {
    match get_text(&engine(), &blank(8, 8)) {
        Err(OcrError::Detection(e)) => assert_eq!(e.to_string(), "Detection model not loaded"),
        other => panic!("unexpected {:?}", other),
    }
}

#[test]
fn an_image_without_pixels_is_not_taken() {
    for (width, height) in [(0, 0), (0, 7), (7, 0)] {
        match get_text(&engine(), &blank(width, height)) {
            Err(OcrError::Source(e)) => {
                assert_eq!(e, ocrs::ImageSourceError::UnsupportedChannelCount)
            }
            other => panic!("unexpected {:?}", other),
        }
    }
}

#[test]
fn a_panel_too_small_is_not_read() {
    match parse_text(&engine(), &blank(74, 600), &table(), &mut Vec::new()) {
        Err(ScanError::PanelTooSmall) => {}
        other => panic!("unexpected {:?}", other),
    }
    match parse_text(&engine(), &blank(600, 339), &table(), &mut Vec::new()) {
        Err(ScanError::PanelTooSmall) => {}
        other => panic!("unexpected {:?}", other),
    }
}

#[test]
fn a_failing_engine_fails_the_reading() {
    match parse_text(&engine(), &blank(600, 550), &table(), &mut Vec::new()) {
        Err(ScanError::Ocr(OcrError::Detection(_))) => {}
        other => panic!("unexpected {:?}", other),
    }
    // The smallest panel has stat lines without pixels, but the set band is
    // read first.
    match parse_text(&engine(), &blank(75, 340), &table(), &mut Vec::new()) {
        Err(ScanError::Ocr(OcrError::Detection(_))) => {}
        other => panic!("unexpected {:?}", other),
    }
}

#[test]
fn relics_that_differ_in_set_or_slot_only_are_equal() {
    let subs = vec![Stat::SPD(2), Stat::CR(pct(2_900))];
    let a = relic("Hat", RelicSet::POET, Slot::HEAD, Stat::HP(705), subs.clone());
    let b = relic("Hat", RelicSet::DUKE, Slot::HEAD, Stat::HP(705), subs.clone());
    let c = relic("Hat", RelicSet::POET, Slot::FEET, Stat::HP(705), subs.clone());
    let d = relic("Hat", RelicSet::IRON, Slot::ROPE, Stat::HP(705), subs.clone());
    assert_eq!(a, b);
    assert_eq!(a, c);
    assert_eq!(a, d);
    assert_eq!(a, a.clone());
}

#[test]
fn relics_that_differ_in_name_or_stats_are_unequal() {
    let subs = vec![Stat::SPD(2), Stat::CR(pct(2_900))];
    let a = relic("Hat", RelicSet::POET, Slot::HEAD, Stat::HP(705), subs.clone());
    assert_ne!(
        a,
        relic("Cap", RelicSet::POET, Slot::HEAD, Stat::HP(705), subs.clone())
    );
    assert_ne!(
        a,
        relic("Hat", RelicSet::POET, Slot::HEAD, Stat::HP(706), subs.clone())
    );
    assert_ne!(
        a,
        relic("Hat", RelicSet::POET, Slot::HEAD, Stat::ATK(705), subs.clone())
    );
    assert_ne!(
        a,
        relic(
            "Hat",
            RelicSet::POET,
            Slot::HEAD,
            Stat::HP(705),
            vec![Stat::CR(pct(2_900)), Stat::SPD(2)]
        )
    );
    assert_ne!(
        a,
        relic("Hat", RelicSet::POET, Slot::HEAD, Stat::HP(705), vec![Stat::SPD(2)])
    );
    assert_ne!(
        a,
        relic(
            "Hat",
            RelicSet::POET,
            Slot::HEAD,
            Stat::HP(705),
            vec![Stat::SPD(2), Stat::CR(pct(2_901))]
        )
    );
}

#[test]
fn stat_lists_are_compared_in_order() {
    assert!(stats_equal(&Vec::new(), &Vec::new()));
    assert!(stats_equal(&vec![Stat::HP(1), Stat::SPD(2)], &vec![Stat::HP(1), Stat::SPD(2)]));
    assert!(!stats_equal(&vec![Stat::HP(1), Stat::SPD(2)], &vec![Stat::SPD(2), Stat::HP(1)]));
    assert!(!stats_equal(&vec![Stat::HP(1)], &vec![Stat::HP(1), Stat::SPD(2)]));
    assert!(!stats_equal(&vec![Stat::HP(1)], &vec![Stat::HPP(pct(1))]));
}

#[test]
fn the_loop_keeps_relics_until_one_repeats() {
    let first = relic("Hat", RelicSet::POET, Slot::HEAD, Stat::HP(705), vec![Stat::SPD(2)]);
    let second = relic("Coat", RelicSet::POET, Slot::BODY, Stat::HPP(pct(43_200)), Vec::new());
    let third = relic("Boots", RelicSet::POET, Slot::FEET, Stat::SPD(25), Vec::new());
    let mut state = CaptureLoop::new();
    assert_eq!(SETTLE_SECONDS, 2);
    assert!(!state.is_done());
    assert!(state.relics().is_empty());
    assert_eq!(state.observe(first.clone()), Action::CaptureAgain);
    assert_eq!(state.observe(second.clone()), Action::CaptureAgain);
    assert_eq!(state.observe(third.clone()), Action::CaptureAgain);
    assert!(!state.is_done());
    assert_eq!(state.observe(third.clone()), Action::Finish);
    assert!(state.is_done());
    assert_eq!(state.relics(), &vec![first.clone(), second.clone(), third.clone()]);
    assert_eq!(state.into_relics(), vec![first, second, third]);
}

#[test]
fn a_relic_seen_earlier_but_not_last_is_kept() {
    let a = relic("Hat", RelicSet::POET, Slot::HEAD, Stat::HP(705), Vec::new());
    let b = relic("Coat", RelicSet::POET, Slot::BODY, Stat::HP(705), Vec::new());
    let mut state = CaptureLoop::new();
    assert_eq!(state.observe(a.clone()), Action::CaptureAgain);
    assert_eq!(state.observe(b.clone()), Action::CaptureAgain);
    assert_eq!(state.observe(a.clone()), Action::CaptureAgain);
    assert_eq!(state.relics().len(), 3);
    assert_eq!(state.observe(a.clone()), Action::Finish);
    assert_eq!(state.relics().len(), 3);
}

#[test]
fn a_repeat_in_another_slot_or_set_ends_the_loop_unkept() {
    let kept = relic("Hat", RelicSet::POET, Slot::HEAD, Stat::HP(705), vec![Stat::SPD(2)]);
    let twin = relic("Hat", RelicSet::DUKE, Slot::FEET, Stat::HP(705), vec![Stat::SPD(2)]);
    let mut state = CaptureLoop::new();
    assert_eq!(state.observe(kept.clone()), Action::CaptureAgain);
    assert_eq!(state.observe(twin), Action::Finish);
    assert!(state.is_done());
    let relics = state.into_relics();
    assert_eq!(relics.len(), 1);
    assert_eq!(relics[0].set, RelicSet::POET);
    assert_eq!(relics[0].slot, Slot::HEAD);
}

#[test]
fn a_finished_loop_takes_nothing_in() {
    let a = relic("Hat", RelicSet::POET, Slot::HEAD, Stat::HP(705), Vec::new());
    let b = relic("Coat", RelicSet::POET, Slot::BODY, Stat::HP(705), Vec::new());
    let mut state = CaptureLoop::new();
    state.observe(a.clone());
    assert_eq!(state.observe(a.clone()), Action::Finish);
    assert_eq!(state.observe(b), Action::Finish);
    assert_eq!(state.observe(a.clone()), Action::Finish);
    assert!(state.is_done());
    assert_eq!(state.into_relics(), vec![a]);
}

#[test]
fn a_turn_without_a_relic_leaves_the_loop_as_it_was() {
    let kept = relic("Hat", RelicSet::POET, Slot::HEAD, Stat::HP(705), Vec::new());
    let mut state = CaptureLoop::new();
    state.observe(kept.clone());
    match capture_step(&mut state, &engine(), &blank(1919, 1080), (0, 0), &table(), &mut Vec::new()) {
        Err(ScanError::PanelOffScreen) => {}
        other => panic!("unexpected {:?}", other),
    }
    match capture_step(&mut state, &engine(), &blank(1920, 700), (0, 76), &table(), &mut Vec::new()) {
        Err(ScanError::PanelOffScreen) => {}
        other => panic!("unexpected {:?}", other),
    }
    match capture_step(&mut state, &engine(), &blank(1920, 700), (0, 75), &table(), &mut Vec::new()) {
        Err(ScanError::Ocr(OcrError::Detection(_))) => {}
        other => panic!("unexpected {:?}", other),
    }
    assert!(!state.is_done());
    assert_eq!(state.into_relics(), vec![kept]);
}

fn stat_line(text: &str) -> Unread {
    Unread::StatLine(text.to_string())
}

#[test]
fn stat_lines_that_denote_nothing_go_unread() {
    let mut log = vec![stat_line("earlier")];
    let found = parse_relic(
        &lines(&["Head"]),
        &lines(&["????", "HP 705", "garbage", "SPD 2", "ATK x"]),
        "Poet",
        &table(),
        &mut log,
    )
    .unwrap();
    assert_eq!(found.substats, vec![Stat::SPD(2)]);
    assert_eq!(
        log,
        vec![
            stat_line("earlier"),
            stat_line("????"),
            stat_line("garbage"),
            stat_line("ATK x"),
        ]
    );
}

#[test]
fn a_set_line_that_selects_nothing_goes_unread() {
    let mut log = Vec::new();
    let read = parse_relic(
        &lines(&["Head"]),
        &lines(&["x", "HP 705"]),
        "Nothing of Note",
        &table(),
        &mut log,
    );
    assert_eq!(read.err(), Some(RelicError::UnknownSet));
    assert_eq!(
        log,
        vec![stat_line("x"), Unread::SetLine("Nothing of Note".to_string())]
    );
}

#[test]
fn what_is_understood_leaves_the_log_alone() {
    let mut log = Vec::new();
    parse_relic(&lines(&["Head"]), &lines(&["HP 705"]), "Poet", &table(), &mut log).unwrap();
    assert!(log.is_empty());
    let unnamed = parse_relic(
        &lines(&["Head"]),
        &lines(&["HP 705"]),
        "Iron Cavalry Against the Scourge",
        &table(),
        &mut log,
    );
    assert_eq!(unnamed.err(), Some(RelicError::NoName));
    assert!(log.is_empty());
}

#[test]
fn without_a_slot_nothing_is_read() {
    let mut log = Vec::new();
    let read = parse_relic(&lines(&["Helmet"]), &lines(&["x"]), "Nothing", &table(), &mut log);
    assert_eq!(read.err(), Some(RelicError::NoSlot));
    assert!(log.is_empty());
}

#[test]
fn without_a_main_stat_the_set_line_is_not_read() {
    let mut log = Vec::new();
    let read = parse_relic(&lines(&["Head"]), &lines(&["x", "y z"]), "Nothing", &table(), &mut log);
    assert_eq!(read.err(), Some(RelicError::NoMainStat));
    assert_eq!(log, vec![stat_line("x"), stat_line("y z")]);
}

#[test]
fn bands_give_their_unread_first_lines() {
    let bands = vec![
        lines(&["HP 705", "never read"]),
        Vec::new(),
        lines(&["blot", "SPD 9"]),
    ];
    let mut log = Vec::new();
    let found = relic_from_bands(
        &lines(&["Poet"]),
        &lines(&["Head"]),
        &bands,
        &table(),
        &mut log,
    )
    .unwrap();
    assert!(found.substats.is_empty());
    assert_eq!(log, vec![stat_line("blot")]);
    let none = relic_from_bands(&Vec::new(), &lines(&["Head"]), &bands, &table(), &mut log);
    assert_eq!(none.err(), Some(RelicError::NoSetLine));
    assert_eq!(log, vec![stat_line("blot")]);
}

#[test]
fn a_turn_that_reads_nothing_leaves_the_log_alone() {
    let mut state = CaptureLoop::new();
    let mut log = vec![stat_line("earlier")];
    assert!(capture_step(&mut state, &engine(), &blank(10, 10), (0, 0), &table(), &mut log).is_err());
    assert!(capture_step(&mut state, &engine(), &blank(1920, 700), (0, 0), &table(), &mut log)
        .is_err());
    assert!(parse_text(&engine(), &blank(10, 10), &table(), &mut log).is_err());
    assert_eq!(log, vec![stat_line("earlier")]);
}
