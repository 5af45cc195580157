//! Raster images as plain values, and cropping.

use vstd::prelude::*;

verus! {

/// Bytes per pixel: red, green, blue, alpha.
pub const CHANNELS: usize = 4;

/// An axis-aligned rectangle of pixels.
#[derive(Debug, Clone, Copy, PartialEq, Eq, Structural)]
pub struct Rect {
    pub x: u32,
    pub y: u32,
    pub width: u32,
    pub height: u32,
}

impl Rect {
    /// Whether the rectangle lies within an image of the given size.
    pub open spec fn fits(self, width: nat, height: nat) -> bool {
        self.x + self.width <= width && self.y + self.height <= height
    }
}

/// An image as mathematical values: its size and its bytes, row by row,
/// four to a pixel.
pub struct RasterView {
    pub width: nat,
    pub height: nat,
    pub data: Seq<u8>,
}

impl RasterView {
    /// The data holds exactly the pixels of the stated size.
    pub open spec fn wf(self) -> bool {
        self.data.len() == self.width * self.height * CHANNELS
    }

    /// Where the pixel (`x`, `y`) starts in the data.
    pub open spec fn offset(self, x: int, y: int) -> int {
        (y * self.width + x) * CHANNELS
    }

    /// Channel `c` of the pixel (`x`, `y`).
    pub open spec fn channel(self, x: int, y: int, c: int) -> u8 {
        self.data[self.offset(x, y) + c]
    }

    /// Whether this image is the part of `source` that `area` covers.
    pub open spec fn is_crop_of(self, source: RasterView, area: Rect) -> bool {
        &&& self.wf()
        &&& self.width == area.width
        &&& self.height == area.height
        &&& forall|x: int, y: int, c: int|
            0 <= x < area.width && 0 <= y < area.height && 0 <= c < CHANNELS
                ==> #[trigger] self.channel(x, y, c) == source.channel(area.x + x, area.y + y, c)
    }
}

/// A pixel inside an image starts inside the data, with room for its
/// channels.
pub proof fn lemma_offset_in_bounds(view: RasterView, x: int, y: int)
    requires
        view.wf(),
        0 <= x < view.width,
        0 <= y < view.height,
    ensures
        0 <= view.offset(x, y),
        view.offset(x, y) + CHANNELS <= view.data.len(),
{
    let w = view.width as int;
    let h = view.height as int;
    assert(y * w + x + 1 <= h * w) by (nonlinear_arith)
        requires
            0 <= x < w,
            0 <= y < h,
    ;
    assert(0 <= y * w + x) by (nonlinear_arith)
        requires
            0 <= x < w,
            0 <= y < h,
    ;
    assert(h * w == w * h) by (nonlinear_arith);
}

/// An RGBA image, eight bits per channel, rows from the top.
#[derive(Debug)]
pub struct Raster {
    pub(crate) width: u32,
    pub(crate) height: u32,
    pub(crate) data: Vec<u8>,
}

impl View for Raster {
    type V = RasterView;

    closed spec fn view(&self) -> RasterView {
        RasterView { width: self.width as nat, height: self.height as nat, data: self.data@ }
    }
}

impl Raster {
    #[verifier::type_invariant]
    pub(crate) closed spec fn well_formed(self) -> bool {
        self@.wf()
    }

    /// An image of the given size over `data`, where `data` has four bytes
    /// for each pixel and no others.
    pub fn new(width: u32, height: u32, data: Vec<u8>) -> (made: Option<Raster>)
        ensures
            made is Some <==> data@.len() == width * height * CHANNELS,
            made is Some ==> made->0@ == (RasterView {
                width: width as nat,
                height: height as nat,
                data: data@,
            }),
    {
        proof {
            assert(width * height <= 0xffff_ffff * 0xffff_ffff) by (nonlinear_arith)
                requires
                    0 <= width <= 0xffff_ffff,
                    0 <= height <= 0xffff_ffff,
            ;
        }
        let pixels: u64 = width as u64 * height as u64;
        let len = data.len();
        if len % CHANNELS == 0 && (len / CHANNELS) as u64 == pixels {
            Some(Raster { width, height, data })
        } else {
            None
        }
    }

    pub fn width(&self) -> (w: u32)
        ensures
            w == self@.width,
    {
        self.width
    }

    pub fn height(&self) -> (h: u32)
        ensures
            h == self@.height,
    {
        self.height
    }

    /// The bytes of the image, row by row.
    pub fn data(&self) -> (bytes: &Vec<u8>)
        ensures
            bytes@ == self@.data,
            self@.wf(),
    {
        proof {
            use_type_invariant(self);
        }
        &self.data
    }

    /// The part of the image that `area` covers, where it lies within the
    /// image.
    pub fn crop(&self, area: Rect) -> (part: Option<Raster>)
        ensures
            part is Some <==> area.fits(self@.width, self@.height),
            part is Some ==> part->0@.is_crop_of(self@, area),
    {
        proof {
            use_type_invariant(self);
        }
        if area.x as u64 + area.width as u64 > self.width as u64 || area.y as u64
            + area.height as u64 > self.height as u64 {
            return None;
        }
        let ghost source = self@;
        let ghost target = RasterView {
            width: area.width as nat,
            height: area.height as nat,
            data: Seq::<u8>::empty(),
        };
        let total = self.data.len();
        let mut data: Vec<u8> = Vec::new();
        let mut row: u32 = 0;
        while row < area.height
            invariant
                row <= area.height,
                source == self@,
                source.data.len() == total,
                source.wf(),
                area.fits(source.width, source.height),
                target.width == area.width,
                data@.len() == row * area.width * CHANNELS,
                forall|x: int, y: int, c: int|
                    0 <= x < area.width && 0 <= y < row && 0 <= c < CHANNELS ==> data@[#[trigger] (
                    target.offset(x, y) + c)] == source.channel(area.x + x, area.y + y, c),
            decreases area.height - row,
        {
            let mut col: u32 = 0;
            while col < area.width
                invariant
                    col <= area.width,
                    row < area.height,
                    source == self@,
                    source.data.len() == total,
                    source.wf(),
                    area.fits(source.width, source.height),
                    target.width == area.width,
                    data@.len() == (row * area.width + col) * CHANNELS,
                    forall|x: int, y: int, c: int|
                        0 <= x < area.width && 0 <= y < row && 0 <= c < CHANNELS
                            ==> data@[#[trigger] (target.offset(x, y) + c)] == source.channel(
                            area.x + x,
                            area.y + y,
                            c,
                        ),
                    forall|x: int, c: int|
                        0 <= x < col && 0 <= c < CHANNELS ==> data@[#[trigger] (target.offset(
                            x,
                            row as int,
                        ) + c)] == source.channel(area.x + x, area.y + row, c),
                decreases area.width - col,
            {
                proof {
                    lemma_offset_in_bounds(source, area.x + col, area.y + row);
                    assert(0 <= (area.y + row) * self.width) by (nonlinear_arith)
                        requires
                            0 <= area.y + row,
                            0 <= self.width,
                    ;
                    assert(source.offset(area.x + col, area.y + row) == ((area.y + row)
                        * self.width + (area.x + col)) * CHANNELS);
                    assert(((area.y + row) * self.width + (area.x + col)) * CHANNELS + CHANNELS
                        <= total);
                }
                let ghost before = data@;
                let start: usize = ((area.y + row) as usize * self.width as usize + (area.x
                    + col) as usize) * CHANNELS;
                data.push(self.data[start]);
                data.push(self.data[start + 1]);
                data.push(self.data[start + 2]);
                data.push(self.data[start + 3]);
                proof {
                    assert(before.len() == target.offset(col as int, row as int));
                    assert forall|x: int, y: int, c: int|
                        0 <= x < area.width && 0 <= y < row && 0 <= c < CHANNELS implies data@[#[trigger] (
                    target.offset(x, y) + c)] == source.channel(area.x + x, area.y + y, c) by {
                        assert(y * area.width + x + 1 <= row * area.width) by (nonlinear_arith)
                            requires
                                0 <= x < area.width,
                                0 <= y < row,
                        ;
                        assert(data@[target.offset(x, y) + c] == before[target.offset(x, y) + c]);
                    }
                    assert forall|x: int, c: int| 0 <= x < col + 1 && 0 <= c < CHANNELS implies data@[#[trigger] (
                    target.offset(x, row as int) + c)] == source.channel(
                        area.x + x,
                        area.y + row,
                        c,
                    ) by {
                        if x < col {
                            assert(data@[target.offset(x, row as int) + c] == before[target.offset(
                                x,
                                row as int,
                            ) + c]);
                        }
                    }
                }
                col += 1;
            }
            proof {
                assert((row * area.width + area.width) * CHANNELS == (row + 1) * area.width
                    * CHANNELS) by (nonlinear_arith);
            }
            row += 1;
        }
        proof {
            assert(area.height * area.width * CHANNELS == area.width * area.height * CHANNELS)
                by (nonlinear_arith);
        }
        let part = Raster { width: area.width, height: area.height, data };
        proof {
            assert(part@.width == target.width);
            assert forall|x: int, y: int, c: int|
                0 <= x < area.width && 0 <= y < area.height && 0 <= c < CHANNELS implies #[trigger] part@.channel(
                x,
                y,
                c,
            ) == source.channel(area.x + x, area.y + y, c) by {
                assert(part@.offset(x, y) == target.offset(x, y));
            }
        }
        Some(part)
    }
}

} // verus!
