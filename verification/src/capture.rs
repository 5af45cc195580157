//! Capturing: one relic is read off a panel image, and the capture loop
//! accumulates relics until one repeats.

use vstd::prelude::*;
use crate::names::{NameTable, Names};
use crate::ocr::{get_text, OcrError};
use crate::parser::assembly::{
    lemma_parsed_stats_len, parse_relic, relic_of, unread_of, unread_texts, RelicError, Unread,
    UnreadText,
};
use crate::raster::Raster;
use crate::region::{
    divisible, get_relic_image, panel_on_screen, slice, stat_line_height, INFO_HEIGHT,
    SET_HEIGHT, STAT_LEFT, STAT_LINES,
};
use crate::relic::{same_relic, Relic, RelicView};
use crate::text::line_texts;

verus! {

/// Why no relic was read off a panel.
#[derive(Debug)]
pub enum ScanError {
    /// The panel that belongs to the anchor reaches beyond the screen.
    PanelOffScreen,
    /// The panel is too small to hold the bands.
    PanelTooSmall,
    /// Text extraction failed on one of the bands.
    Ocr(OcrError),
    /// The recognised lines make no relic.
    Relic(RelicError),
}

/// The texts of the lines of several bands.
pub open spec fn band_texts(bands: Seq<Vec<String>>) -> Seq<Seq<Seq<char>>> {
    Seq::new(bands.len(), |i: int| line_texts(bands[i]@))
}

/// The first line of each band that has a line, in the order of the bands.
pub open spec fn first_lines(bands: Seq<Seq<Seq<char>>>) -> Seq<Seq<char>>
    decreases bands.len(),
{
    if bands.len() == 0 {
        Seq::empty()
    } else {
        let front = first_lines(bands.drop_last());
        if bands.last().len() > 0 {
            front.push(bands.last()[0])
        } else {
            front
        }
    }
}

/// The relic that the lines of a panel's bands describe. The set line is the
/// first line of the set band, and each stat band gives its first line.
pub open spec fn relic_of_bands(
    set_lines: Seq<Seq<char>>,
    info_lines: Seq<Seq<char>>,
    stat_bands: Seq<Seq<Seq<char>>>,
    names: Names,
) -> Result<RelicView, RelicError> {
    if set_lines.len() == 0 {
        Err(RelicError::NoSetLine)
    } else {
        relic_of(info_lines, first_lines(stat_bands), set_lines[0], names)
    }
}

/// The texts that go unread while a relic is assembled from the lines of a
/// panel's bands: none without a set line, and otherwise those of the
/// assembly from the first lines.
pub open spec fn unread_of_bands(
    set_lines: Seq<Seq<char>>,
    info_lines: Seq<Seq<char>>,
    stat_bands: Seq<Seq<Seq<char>>>,
) -> Seq<UnreadText> {
    if set_lines.len() == 0 {
        Seq::empty()
    } else {
        unread_of(info_lines, first_lines(stat_bands), set_lines[0])
    }
}

/// There are no more first lines than bands.
pub proof fn lemma_first_lines_len(bands: Seq<Seq<Seq<char>>>)
    ensures
        first_lines(bands).len() <= bands.len(),
    decreases bands.len(),
{
    if bands.len() > 0 {
        lemma_first_lines_len(bands.drop_last());
    }
}

/// A relic read off bands takes its name from the table's row for its set,
/// at its slot, and has fewer sub-stats than there are stat bands.
pub proof fn lemma_relic_of_bands_is_named(
    set_lines: Seq<Seq<char>>,
    info_lines: Seq<Seq<char>>,
    stat_bands: Seq<Seq<Seq<char>>>,
    names: Names,
)
    requires
        relic_of_bands(set_lines, info_lines, stat_bands, names) is Ok,
    ensures
        ({
            let relic = relic_of_bands(set_lines, info_lines, stat_bands, names)->Ok_0;
            &&& names.contains_key(relic.set)
            &&& relic.name == names[relic.set][relic.slot.ordinal() as int]
            &&& relic.substats.len() < stat_bands.len()
        }),
{
    lemma_first_lines_len(stat_bands);
    lemma_parsed_stats_len(first_lines(stat_bands));
}

/// Assembles a relic from the lines recognised in the set band, the info
/// band and each stat band. The texts that were read and not understood are
/// added to `log`.
pub fn relic_from_bands(
    set_lines: &Vec<String>,
    info_lines: &Vec<String>,
    stat_bands: &Vec<Vec<String>>,
    names: &NameTable,
    log: &mut Vec<Unread>,
) -> (assembled: Result<Relic, RelicError>)
    ensures
        unread_texts(final(log)@) == unread_texts(old(log)@) + unread_of_bands(
            line_texts(set_lines@),
            line_texts(info_lines@),
            band_texts(stat_bands@),
        ),
        match assembled {
            Ok(relic) => relic_of_bands(
                line_texts(set_lines@),
                line_texts(info_lines@),
                band_texts(stat_bands@),
                names@,
            ) == Ok::<RelicView, RelicError>(relic@),
            Err(e) => relic_of_bands(
                line_texts(set_lines@),
                line_texts(info_lines@),
                band_texts(stat_bands@),
                names@,
            ) == Err::<RelicView, RelicError>(e),
        },
{
    if set_lines.len() == 0 {
        proof {
            assert(unread_texts(log@) + Seq::<UnreadText>::empty() =~= unread_texts(log@));
        }
        return Err(RelicError::NoSetLine);
    }
    let ghost bands = band_texts(stat_bands@);
    let mut heads: Vec<String> = Vec::new();
    let mut i: usize = 0;
    proof {
        assert(bands.take(0) =~= Seq::<Seq<Seq<char>>>::empty());
        assert(line_texts(heads@) =~= Seq::<Seq<char>>::empty());
    }
    while i < stat_bands.len()
        invariant
            i <= stat_bands@.len(),
            bands == band_texts(stat_bands@),
            line_texts(heads@) == first_lines(bands.take(i as int)),
        decreases stat_bands@.len() - i,
    {
        proof {
            let ghost upto = bands.take(i + 1);
            assert(upto.drop_last() =~= bands.take(i as int));
            assert(upto.last() == bands[i as int]);
        }
        let band = &stat_bands[i];
        if band.len() > 0 {
            let ghost before = line_texts(heads@);
            heads.push(band[0].clone());
            proof {
                assert(line_texts(heads@) =~= before.push(band@[0]@));
            }
        }
        i += 1;
    }
    proof {
        assert(bands.take(i as int) =~= bands);
        assert(line_texts(set_lines@)[0] == set_lines@[0]@);
    }
    parse_relic(info_lines, &heads, set_lines[0].as_str(), names, log)
}

/// Reads the relic off a panel image: the panel is divided into its bands,
/// text is extracted from the set band, the info band and the five stat
/// lines, and the relic is assembled from the lines.
///
/// What the engine recognises is not determined here; whatever it is, a
/// relic handed out was assembled from lines by `relic_of_bands`, and the
/// texts that were read and not understood are added to `log`.
pub fn parse_text(
    engine: &ocrs::OcrEngine,
    relic: &Raster,
    name_map: &NameTable,
    log: &mut Vec<Unread>,
) -> (read: Result<Relic, ScanError>)
    ensures
        read matches Err(ScanError::PanelTooSmall) <==> !divisible(relic@.width, relic@.height),
        !(read matches Err(ScanError::PanelOffScreen)),
        divisible(relic@.width, relic@.height) && relic@.width * SET_HEIGHT > u32::MAX
            ==> read matches Err(ScanError::Ocr(OcrError::ImageTooLarge)),
        read matches Err(ScanError::Ocr(OcrError::ImageTooLarge)) ==> relic@.width * INFO_HEIGHT
            > u32::MAX || (relic@.width - STAT_LEFT) * stat_line_height(relic@.height as u32)
            > u32::MAX,
        read matches Err(ScanError::Ocr(OcrError::Source(_))) ==> (relic@.width - STAT_LEFT)
            * stat_line_height(relic@.height as u32) == 0,
        read matches Ok(found) ==> exists|
            set_lines: Seq<Seq<char>>,
            info_lines: Seq<Seq<char>>,
            stat_bands: Seq<Seq<Seq<char>>>,
        |
            stat_bands.len() == STAT_LINES && #[trigger] relic_of_bands(
                set_lines,
                info_lines,
                stat_bands,
                name_map@,
            ) == Ok::<RelicView, RelicError>(found@) && unread_texts(final(log)@) == unread_texts(
                old(log)@,
            ) + unread_of_bands(set_lines, info_lines, stat_bands),
        read matches Err(ScanError::Relic(e)) ==> exists|
            set_lines: Seq<Seq<char>>,
            info_lines: Seq<Seq<char>>,
            stat_bands: Seq<Seq<Seq<char>>>,
        |
            stat_bands.len() == STAT_LINES && #[trigger] relic_of_bands(
                set_lines,
                info_lines,
                stat_bands,
                name_map@,
            ) == Err::<RelicView, RelicError>(e) && unread_texts(final(log)@) == unread_texts(
                old(log)@,
            ) + unread_of_bands(set_lines, info_lines, stat_bands),
        (read matches Err(ScanError::PanelTooSmall)) || (read matches Err(ScanError::Ocr(_)))
            ==> unread_texts(final(log)@) == unread_texts(old(log)@),
        read matches Ok(found) ==> {
            &&& name_map@.contains_key(found.set)
            &&& found.name@ == name_map@[found.set][found.slot.ordinal() as int]
            &&& found.substats@.len() < STAT_LINES
        },
{
    let bands = match slice(relic) {
        Some(bands) => bands,
        None => { return Err(ScanError::PanelTooSmall); },
    };
    let panel_width = relic.width();
    let panel_height = relic.height();
    let ghost width = panel_width as int;
    let ghost line_height = stat_line_height(panel_height) as int;
    proof {
        assert(bands.set@.width * bands.set@.height == width * SET_HEIGHT);
        assert(bands.info@.width * bands.info@.height == width * INFO_HEIGHT);
        assert(0 < width * SET_HEIGHT <= width * INFO_HEIGHT);
    }
    let set_lines = match get_text(engine, &bands.set) {
        Ok(lines) => lines,
        Err(e) => { return Err(ScanError::Ocr(e)); },
    };
    let info_lines = match get_text(engine, &bands.info) {
        Ok(lines) => lines,
        Err(e) => { return Err(ScanError::Ocr(e)); },
    };
    let mut stat_bands: Vec<Vec<String>> = Vec::new();
    let mut i: usize = 0;
    while i < bands.stat_lines.len()
        invariant
            i <= bands.stat_lines@.len(),
            bands.stat_lines@.len() == STAT_LINES,
            stat_bands@.len() == i,
            divisible(relic@.width, relic@.height),
            width == relic@.width,
            line_height == stat_line_height(relic@.height as u32),
            width * SET_HEIGHT <= u32::MAX,
            bands.cut_from(relic@),
            log@ == old(log)@,
        decreases bands.stat_lines@.len() - i,
    {
        proof {
            let ghost band = bands.stat_lines@[i as int]@;
            assert(band.width * band.height == (width - STAT_LEFT) * line_height);
        }
        match get_text(engine, &bands.stat_lines[i]) {
            Ok(lines) => {
                stat_bands.push(lines);
            },
            Err(e) => { return Err(ScanError::Ocr(e)); },
        }
        i += 1;
    }
    let assembled = relic_from_bands(&set_lines, &info_lines, &stat_bands, name_map, log);
    proof {
        let ghost s = line_texts(set_lines@);
        let ghost n = line_texts(info_lines@);
        let ghost b = band_texts(stat_bands@);
        assert(b.len() == STAT_LINES);
        if assembled is Ok {
            lemma_relic_of_bands_is_named(s, n, b, name_map@);
        }
    }
    match assembled {
        Ok(found) => Ok(found),
        Err(e) => Err(ScanError::Relic(e)),
    }
}

/// The state of a capture loop as mathematical values.
pub struct LoopView {
    /// The relics kept so far, in capture order.
    pub relics: Seq<RelicView>,
    /// Whether the loop has ended.
    pub done: bool,
}

/// Seconds to wait after a relic was kept, for the screen to show the next
/// one, before it is captured.
pub const SETTLE_SECONDS: u64 = 2;

/// What the loop's owner does next.
#[derive(Debug, Clone, Copy, PartialEq, Eq, Structural)]
pub enum Action {
    /// Wait `SETTLE_SECONDS`, capture the screen and take another turn.
    CaptureAgain,
    /// Stop: the kept relics are the result.
    Finish,
}

/// The state after a relic is observed. A finished loop stays as it is. A
/// relic equal to the one kept last ends the loop and is not kept. Any
/// other relic is kept.
pub open spec fn observed(state: LoopView, relic: RelicView) -> LoopView {
    if state.done {
        state
    } else if state.relics.len() > 0 && same_relic(relic, state.relics.last()) {
        LoopView { relics: state.relics, done: true }
    } else {
        LoopView { relics: state.relics.push(relic), done: false }
    }
}

/// No relic in the list equals the one kept just before it.
pub open spec fn no_adjacent_repeat(relics: Seq<RelicView>) -> bool {
    forall|i: int| 0 < i < relics.len() ==> !same_relic(#[trigger] relics[i], relics[i - 1])
}

/// The views of a list of relics.
pub open spec fn relic_views(relics: Seq<Relic>) -> Seq<RelicView> {
    Seq::new(relics.len(), |i: int| relics[i]@)
}

/// The capture loop's state: the relics kept so far, and whether a repeat
/// has ended the loop.
#[derive(Debug)]
pub struct CaptureLoop {
    relics: Vec<Relic>,
    done: bool,
}

impl View for CaptureLoop {
    type V = LoopView;

    closed spec fn view(&self) -> LoopView {
        LoopView { relics: relic_views(self.relics@), done: self.done }
    }
}

impl CaptureLoop {
    /// A loop that has kept nothing yet.
    pub fn new() -> (state: Self)
        ensures
            state@ == (LoopView { relics: Seq::empty(), done: false }),
    {
        let state = CaptureLoop { relics: Vec::new(), done: false };
        proof {
            assert(state@.relics =~= Seq::<RelicView>::empty());
        }
        state
    }

    /// Takes in the relic read off the latest capture and says what to do
    /// next.
    pub fn observe(&mut self, relic: Relic) -> (action: Action)
        ensures
            final(self)@ == observed(old(self)@, relic@),
            action == (if final(self)@.done {
                Action::Finish
            } else {
                Action::CaptureAgain
            }),
    {
        if self.done {
            return Action::Finish;
        }
        let n = self.relics.len();
        if n > 0 && relic == self.relics[n - 1] {
            self.done = true;
            proof {
                assert(old(self)@.relics.last() == old(self).relics@[n - 1]@);
            }
            Action::Finish
        } else {
            let ghost before = self@.relics;
            proof {
                if n > 0 {
                    assert(old(self)@.relics.last() == old(self).relics@[n - 1]@);
                }
            }
            self.relics.push(relic);
            proof {
                assert(self@.relics =~= before.push(relic@));
            }
            Action::CaptureAgain
        }
    }

    /// Whether a repeat has ended the loop.
    pub fn is_done(&self) -> (done: bool)
        ensures
            done == self@.done,
    {
        self.done
    }

    /// The relics kept so far.
    pub fn relics(&self) -> (kept: &Vec<Relic>)
        ensures
            relic_views(kept@) == self@.relics,
    {
        &self.relics
    }

    /// Ends the loop's life and hands out the relics it kept.
    pub fn into_relics(self) -> (kept: Vec<Relic>)
        ensures
            relic_views(kept@) == self@.relics,
    {
        self.relics
    }
}

/// One turn of the capture loop on a captured screen: the panel is cut out
/// at the anchor, the relic is read off it, and the loop takes the relic in.
///
/// Where no relic can be read the loop stays as it was. Otherwise the loop
/// has observed a relic named by the table, and the action says whether it
/// has ended. The texts that were read and not understood are added to
/// `log`.
pub fn capture_step(
    state: &mut CaptureLoop,
    engine: &ocrs::OcrEngine,
    screen: &Raster,
    anchor: (u32, u32),
    name_map: &NameTable,
    log: &mut Vec<Unread>,
) -> (turn: Result<Action, ScanError>)
    ensures
        turn matches Err(ScanError::PanelOffScreen) <==> !panel_on_screen(
            anchor,
            screen@.width,
            screen@.height,
        ),
        !(turn matches Err(ScanError::PanelTooSmall)),
        !(turn matches Err(ScanError::Ocr(OcrError::ImageTooLarge))),
        !(turn matches Err(ScanError::Ocr(OcrError::Source(_)))),
        turn is Err ==> final(state)@ == old(state)@,
        (turn matches Err(ScanError::PanelOffScreen)) || (turn matches Err(ScanError::Ocr(_)))
            ==> unread_texts(final(log)@) == unread_texts(old(log)@),
        turn is Ok ==> exists|
            set_lines: Seq<Seq<char>>,
            info_lines: Seq<Seq<char>>,
            stat_bands: Seq<Seq<Seq<char>>>,
        |
            {
                let read = #[trigger] relic_of_bands(set_lines, info_lines, stat_bands, name_map@);
                &&& stat_bands.len() == STAT_LINES
                &&& read is Ok
                &&& final(state)@ == observed(old(state)@, read->Ok_0)
                &&& unread_texts(final(log)@) == unread_texts(old(log)@) + unread_of_bands(
                    set_lines,
                    info_lines,
                    stat_bands,
                )
            },
        turn matches Err(ScanError::Relic(e)) ==> exists|
            set_lines: Seq<Seq<char>>,
            info_lines: Seq<Seq<char>>,
            stat_bands: Seq<Seq<Seq<char>>>,
        |
            stat_bands.len() == STAT_LINES && #[trigger] relic_of_bands(
                set_lines,
                info_lines,
                stat_bands,
                name_map@,
            ) == Err::<RelicView, RelicError>(e) && unread_texts(final(log)@) == unread_texts(
                old(log)@,
            ) + unread_of_bands(set_lines, info_lines, stat_bands),
        turn matches Ok(action) ==> {
            &&& exists|relic: RelicView|
                {
                    &&& final(state)@ == #[trigger] observed(old(state)@, relic)
                    &&& name_map@.contains_key(relic.set)
                    &&& relic.name == name_map@[relic.set][relic.slot.ordinal() as int]
                    &&& relic.substats.len() < STAT_LINES
                }
            &&& action == (if final(state)@.done {
                Action::Finish
            } else {
                Action::CaptureAgain
            })
        },
{
    let panel = match get_relic_image(screen, anchor) {
        Some(panel) => panel,
        None => { return Err(ScanError::PanelOffScreen); },
    };
    match parse_text(engine, &panel, name_map, log) {
        Ok(relic) => {
            let ghost seen = relic@;
            let action = state.observe(relic);
            proof {
                assert(state@ == observed(old(state)@, seen));
            }
            Ok(action)
        },
        Err(e) => Err(e),
    }
}

/// A relic that differs from the one kept last only in set or slot ends the
/// loop and is not kept.
pub proof fn lemma_repeat_in_other_slot_ends_loop(state: LoopView, relic: RelicView)
    requires
        !state.done,
        state.relics.len() > 0,
        relic.name == state.relics.last().name,
        relic.mainstat == state.relics.last().mainstat,
        relic.substats == state.relics.last().substats,
    ensures
        observed(state, relic) == (LoopView { relics: state.relics, done: true }),
{
}

/// A finished loop is not changed by what it observes.
pub proof fn lemma_finished_loop_stays(state: LoopView, relic: RelicView)
    requires
        state.done,
    ensures
        observed(state, relic) == state,
{
}

/// Observing keeps what was kept: the list only grows, by one relic at
/// most, and only while the loop runs.
pub proof fn lemma_observing_extends(state: LoopView, relic: RelicView)
    ensures
        observed(state, relic).relics == state.relics || (!state.done && observed(
            state,
            relic,
        ).relics == state.relics.push(relic)),
        state.done ==> observed(state, relic).done,
{
}

/// The loop never keeps a relic equal to the one kept just before it.
pub proof fn lemma_no_adjacent_repeat_is_kept(state: LoopView, relic: RelicView)
    requires
        no_adjacent_repeat(state.relics),
    ensures
        no_adjacent_repeat(observed(state, relic).relics),
{
    let next = observed(state, relic).relics;
    assert forall|i: int| 0 < i < next.len() implies !same_relic(
        #[trigger] next[i],
        next[i - 1],
    ) by {
        if i < state.relics.len() {
            assert(next[i] == state.relics[i]);
        }
    }
}

} // verus!
