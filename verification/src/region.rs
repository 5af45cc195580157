//! The fixed geometry of a relic's panel: where the panel lies relative to
//! the anchor, and how it divides into the info band, the stat lines and
//! the set band.

use vstd::prelude::*;
use crate::raster::{Raster, RasterView, Rect};

verus! {

/// Width of the game window that the offsets are measured for.
pub const WINDOW_LENGTH: u32 = 1920;

/// Height of the game window that the offsets are measured for.
pub const WINDOW_HEIGHT: u32 = 1080;

/// Width of the relic panel.
pub const PANEL_WIDTH: u32 = 600;

/// Height of the relic panel.
pub const PANEL_HEIGHT: u32 = 550;

/// Distance from the anchor down to the top of the panel.
pub const PANEL_TOP: u32 = 75;

/// Height of the info band at the top of the panel.
pub const INFO_HEIGHT: u32 = 275;

/// Width of the icon column left of the stat lines.
pub const STAT_LEFT: u32 = 75;

/// Gap between the info band and the stat area.
pub const STAT_GAP: u32 = 15;

/// Height of the set band at the bottom of the panel.
pub const SET_HEIGHT: u32 = 50;

/// Number of stat lines: the main stat and up to four sub-stats.
pub const STAT_LINES: u32 = 5;

/// Smallest panel width that can be divided.
pub const MIN_WIDTH: u32 = 75;

/// Smallest panel height that can be divided.
pub const MIN_HEIGHT: u32 = 340;

/// The panel's place in the captured screen: its right edge is the window's,
/// its top lies `PANEL_TOP` below the anchor.
pub open spec fn panel_area(anchor: (u32, u32)) -> Rect {
    Rect {
        x: (anchor.0 + WINDOW_LENGTH - PANEL_WIDTH) as u32,
        y: (anchor.1 + PANEL_TOP) as u32,
        width: PANEL_WIDTH,
        height: PANEL_HEIGHT,
    }
}

/// Whether the panel that belongs to `anchor` lies within a screen of the
/// given size.
pub open spec fn panel_on_screen(anchor: (u32, u32), width: nat, height: nat) -> bool {
    &&& anchor.0 + WINDOW_LENGTH <= width
    &&& anchor.1 + PANEL_TOP + PANEL_HEIGHT <= height
}

/// Whether a panel of the given size can be divided into its bands.
pub open spec fn divisible(width: nat, height: nat) -> bool {
    width >= MIN_WIDTH && height >= MIN_HEIGHT
}

/// Height of the stat area: what the info band, the gap and the set band
/// leave of the panel.
pub open spec fn stat_area_height(height: u32) -> u32 {
    (height - INFO_HEIGHT - STAT_GAP - SET_HEIGHT) as u32
}

/// Height of one stat line: a fifth of the stat area, rounded down.
pub open spec fn stat_line_height(height: u32) -> u32 {
    stat_area_height(height) / STAT_LINES
}

/// The info band: the top of the panel, in its full width.
pub open spec fn info_area(width: u32, height: u32) -> Rect {
    Rect { x: 0, y: 0, width, height: INFO_HEIGHT }
}

/// The stat area: below the info band and the gap, right of the icons.
pub open spec fn stat_area(width: u32, height: u32) -> Rect {
    Rect {
        x: STAT_LEFT,
        y: (INFO_HEIGHT + STAT_GAP) as u32,
        width: (width - STAT_LEFT) as u32,
        height: stat_area_height(height),
    }
}

/// Stat line `i`, counted from the top of the stat area.
pub open spec fn stat_line_area(width: u32, height: u32, i: int) -> Rect {
    Rect {
        x: STAT_LEFT,
        y: (INFO_HEIGHT + STAT_GAP + i * stat_line_height(height)) as u32,
        width: (width - STAT_LEFT) as u32,
        height: stat_line_height(height),
    }
}

/// The set band: the bottom of the panel, in its full width.
pub open spec fn set_area(width: u32, height: u32) -> Rect {
    Rect { x: 0, y: (height - SET_HEIGHT) as u32, width, height: SET_HEIGHT }
}

/// The five stat lines have one height, lie one below the other from the
/// top of the stat area, and together are no higher than the stat area:
/// what the division by five leaves over, fewer than five rows, lies below
/// the last line.
pub proof fn lemma_stat_lines_share_the_area(width: u32, height: u32)
    requires
        divisible(width as nat, height as nat),
    ensures
        forall|i: int|
            0 <= i < STAT_LINES ==> (#[trigger] stat_line_area(width, height, i)).height
                == stat_line_height(height),
        STAT_LINES * stat_line_height(height) <= stat_area_height(height),
        stat_area_height(height) - STAT_LINES * stat_line_height(height) < STAT_LINES,
        stat_line_area(width, height, 0).y == stat_area(width, height).y,
        forall|i: int|
            0 <= i < STAT_LINES - 1 ==> (#[trigger] stat_line_area(width, height, i)).y
                + stat_line_height(height) == stat_line_area(width, height, i + 1).y,
        forall|i: int|
            0 <= i < STAT_LINES ==> {
                let line = #[trigger] stat_line_area(width, height, i);
                let area = stat_area(width, height);
                &&& line.x == area.x
                &&& line.width == area.width
                &&& area.y <= line.y
                &&& line.y + line.height <= area.y + area.height
            },
{
    let h = stat_line_height(height) as int;
    let total = stat_area_height(height) as int;
    assert(5 * h <= total && total - 5 * h < 5);
    assert forall|i: int| 0 <= i < STAT_LINES implies {
        let line = #[trigger] stat_line_area(width, height, i);
        let area = stat_area(width, height);
        &&& line.height == h
        &&& line.x == area.x
        &&& line.width == area.width
        &&& area.y <= line.y
        &&& line.y + line.height <= area.y + area.height
        &&& line.y == INFO_HEIGHT + STAT_GAP + i * h
    } by {
        assert(0 <= i * h && i * h + h <= 5 * h) by (nonlinear_arith)
            requires
                0 <= i < 5,
                0 <= h,
        ;
    }
    assert forall|i: int| 0 <= i < STAT_LINES - 1 implies (#[trigger] stat_line_area(
        width,
        height,
        i,
    )).y + stat_line_height(height) == stat_line_area(width, height, i + 1).y by {
        assert(stat_line_area(width, height, i).y == INFO_HEIGHT + STAT_GAP + i * h);
        assert(stat_line_area(width, height, i + 1).y == INFO_HEIGHT + STAT_GAP + (i + 1) * h);
        assert((i + 1) * h == i * h + h) by (nonlinear_arith);
    }
}

/// Every band of a divisible panel lies within the panel.
pub proof fn lemma_bands_fit(width: u32, height: u32)
    requires
        divisible(width as nat, height as nat),
    ensures
        info_area(width, height).fits(width as nat, height as nat),
        stat_area(width, height).fits(width as nat, height as nat),
        set_area(width, height).fits(width as nat, height as nat),
        forall|i: int|
            0 <= i < STAT_LINES ==> (#[trigger] stat_line_area(width, height, i)).fits(
                width as nat,
                height as nat,
            ),
{
    lemma_stat_lines_share_the_area(width, height);
}

/// The panel's rectangle for an anchor, where it lies on a screen of the
/// given size.
pub fn relic_window(anchor: (u32, u32), width: u32, height: u32) -> (area: Option<Rect>)
    ensures
        area is Some <==> panel_on_screen(anchor, width as nat, height as nat),
        area is Some ==> area->0 == panel_area(anchor) && area->0.fits(width as nat, height as nat),
{
    if anchor.0 as u64 + WINDOW_LENGTH as u64 <= width as u64 && anchor.1 as u64 + PANEL_TOP as u64
        + PANEL_HEIGHT as u64 <= height as u64 {
        Some(
            Rect {
                x: anchor.0 + (WINDOW_LENGTH - PANEL_WIDTH),
                y: anchor.1 + PANEL_TOP,
                width: PANEL_WIDTH,
                height: PANEL_HEIGHT,
            },
        )
    } else {
        None
    }
}

/// Cuts the relic panel out of a captured screen. Absent where the panel
/// would reach beyond the screen.
pub fn get_relic_image(screen: &Raster, anchor: (u32, u32)) -> (panel: Option<Raster>)
    ensures
        panel is Some <==> panel_on_screen(anchor, screen@.width, screen@.height),
        panel is Some ==> panel->0@.is_crop_of(screen@, panel_area(anchor)),
{
    match relic_window(anchor, screen.width(), screen.height()) {
        Some(area) => screen.crop(area),
        None => None,
    }
}

/// The images of a panel's bands.
#[derive(Debug)]
pub struct Bands {
    pub info: Raster,
    pub stat_lines: Vec<Raster>,
    pub set: Raster,
}

impl Bands {
    /// Whether these are the bands of `panel`.
    pub open spec fn cut_from(self, panel: RasterView) -> bool {
        let w = panel.width as u32;
        let h = panel.height as u32;
        &&& self.info@.is_crop_of(panel, info_area(w, h))
        &&& self.set@.is_crop_of(panel, set_area(w, h))
        &&& self.stat_lines@.len() == STAT_LINES
        &&& forall|i: int|
            0 <= i < STAT_LINES ==> (#[trigger] self.stat_lines@[i])@.is_crop_of(
                panel,
                stat_line_area(w, h, i),
            )
    }
}

/// Divides a relic panel into its info band, its five stat lines and its
/// set band. Absent where the panel is too small for the fixed bands.
pub fn slice(panel: &Raster) -> (bands: Option<Bands>)
    ensures
        bands is Some <==> divisible(panel@.width, panel@.height),
        bands is Some ==> bands->0.cut_from(panel@),
{
    let width = panel.width();
    let height = panel.height();
    if width < MIN_WIDTH || height < MIN_HEIGHT {
        return None;
    }
    proof {
        lemma_bands_fit(width, height);
        lemma_stat_lines_share_the_area(width, height);
    }
    let line_height = (height - INFO_HEIGHT - STAT_GAP - SET_HEIGHT) / STAT_LINES;
    let info = panel.crop(Rect { x: 0, y: 0, width, height: INFO_HEIGHT }).unwrap();
    let set = panel.crop(
        Rect { x: 0, y: height - SET_HEIGHT, width, height: SET_HEIGHT },
    ).unwrap();
    let mut stat_lines: Vec<Raster> = Vec::new();
    let mut i: u32 = 0;
    while i < STAT_LINES
        invariant
            i <= STAT_LINES,
            width == panel@.width,
            height == panel@.height,
            divisible(width as nat, height as nat),
            line_height == stat_line_height(height),
            stat_lines@.len() == i,
            forall|k: int|
                0 <= k < STAT_LINES ==> (#[trigger] stat_line_area(width, height, k)).fits(
                    width as nat,
                    height as nat,
                ),
            forall|k: int|
                0 <= k < i ==> (#[trigger] stat_lines@[k])@.is_crop_of(
                    panel@,
                    stat_line_area(width, height, k),
                ),
        decreases STAT_LINES - i,
    {
        proof {
            assert(stat_line_area(width, height, i as int).fits(width as nat, height as nat));
            assert(0 <= i * line_height && i * line_height <= 5 * line_height) by (nonlinear_arith)
                requires
                    0 <= i < 5,
                    0 <= line_height,
            ;
        }
        let area = Rect {
            x: STAT_LEFT,
            y: INFO_HEIGHT + STAT_GAP + i * line_height,
            width: width - STAT_LEFT,
            height: line_height,
        };
        stat_lines.push(panel.crop(area).unwrap());
        i += 1;
    }
    Some(Bands { info, stat_lines, set })
}

} // verus!
