//! An 8-bit grayscale raster held as plain values, row-major.

use vstd::prelude::*;

verus! {

/// Samples below this luminance are ink; samples at or above it are paper.
pub const INK_THRESHOLD: u8 = 128;

/// A width x height array of 8-bit luminance samples, stored row by row.
pub struct GrayRaster {
    width: u32,
    height: u32,
    pixels: Vec<u8>,
}

/// The mathematical content of a raster: its dimensions and its samples.
pub struct RasterView {
    pub width: nat,
    pub height: nat,
    pub pixels: Seq<u8>,
}

impl RasterView {
    /// The sample at column `x`, row `y`.
    pub open spec fn pixel(self, x: int, y: int) -> u8 {
        self.pixels[y * self.width + x]
    }

    /// Whether the sample at column `x`, row `y` is ink (strictly below the threshold).
    pub open spec fn is_ink(self, x: int, y: int) -> bool {
        self.pixel(x, y) < INK_THRESHOLD
    }

    pub open spec fn in_bounds(self, x: int, y: int) -> bool {
        0 <= x < self.width && 0 <= y < self.height
    }
}

impl View for GrayRaster {
    type V = RasterView;

    closed spec fn view(&self) -> RasterView {
        RasterView { width: self.width as nat, height: self.height as nat, pixels: self.pixels@ }
    }
}

/// The index of sample (x, y) lies inside a row-major buffer of width * height samples.
proof fn lemma_index_in_bounds(x: int, y: int, w: int, h: int)
    requires
        0 <= x < w,
        0 <= y < h,
    ensures
        0 <= y * w + x < w * h,
{
    assert(0 <= y * w) by (nonlinear_arith)
        requires
            0 <= y,
            0 <= w,
    ;
    assert(y * w + x < w * h) by (nonlinear_arith)
        requires
            0 <= x < w,
            0 <= y < h,
    ;
}

impl GrayRaster {
    /// Holds exactly one sample per pixel.
    pub open spec fn wf(&self) -> bool {
        &&& self@.pixels.len() == self@.width * self@.height
        &&& self@.width <= u32::MAX
        &&& self@.height <= u32::MAX
    }

    /// Builds a raster from row-major samples; `None` when their count is not
    /// `width * height`.
    pub fn new(width: u32, height: u32, pixels: Vec<u8>) -> (r: Option<GrayRaster>)
        ensures
            pixels@.len() == width as nat * height as nat <==> r.is_some(),
            r matches Some(g) ==> g.wf() && g@ == (RasterView {
                width: width as nat,
                height: height as nat,
                pixels: pixels@,
            }),
    {
        assert(width as u64 * height as u64 <= u64::MAX) by (nonlinear_arith);
        let expected: u64 = width as u64 * height as u64;
        if pixels.len() as u64 == expected {
            Some(GrayRaster { width, height, pixels })
        } else {
            None
        }
    }

    pub fn width(&self) -> (r: u32)
        ensures
            r as nat == self@.width,
    {
        self.width
    }

    pub fn height(&self) -> (r: u32)
        ensures
            r as nat == self@.height,
    {
        self.height
    }

    /// The sample at column `x`, row `y`.
    pub fn get_pixel(&self, x: u32, y: u32) -> (r: u8)
        requires
            self.wf(),
            self@.in_bounds(x as int, y as int),
        ensures
            r == self@.pixel(x as int, y as int),
    {
        let len: usize = self.pixels.len();
        proof {
            lemma_index_in_bounds(x as int, y as int, self.width as int, self.height as int);
            assert(self.pixels@.len() == self.width as int * self.height as int);
        }
        let idx: usize = (y as usize) * (self.width as usize) + (x as usize);
        assert(idx < len);
        self.pixels[idx]
    }
}

/// Whether the sample at column `x`, row `y` of `img` is ink.
pub fn is_black(img: &GrayRaster, x: u32, y: u32) -> (r: bool)
    requires
        img.wf(),
        img@.in_bounds(x as int, y as int),
    ensures
        r == img@.is_ink(x as int, y as int),
{
    img.get_pixel(x, y) < INK_THRESHOLD
}

} // verus!
