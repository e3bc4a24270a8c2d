//! The in-memory raster model: RGBA pixels and row-major images.

use vstd::prelude::*;

verus! {

/// One pixel, 8 bits per channel.
#[derive(Clone, Copy, Debug, PartialEq, Eq, Structural)]
pub struct Rgba {
    pub r: u8,
    pub g: u8,
    pub b: u8,
    pub a: u8,
}

/// The fully transparent pixel, written to every cell position that no
/// sprite covers.
pub open spec fn transparent() -> Rgba {
    Rgba { r: 0, g: 0, b: 0, a: 0 }
}

/// A decoded raster: `width * height` pixels in row-major order.
pub struct Image {
    pub width: u32,
    pub height: u32,
    pub pixels: Vec<Rgba>,
}

impl Image {
    /// Well-formedness: the pixel buffer holds exactly one pixel per
    /// coordinate pair.
    pub open spec fn wf(self) -> bool {
        self.pixels@.len() == (self.width as int) * (self.height as int)
    }

    /// The pixel at column `x`, row `y`.
    pub open spec fn pixel_at(self, x: int, y: int) -> Rgba {
        self.pixels@[y * (self.width as int) + x]
    }

    /// A pixel counts as opaque exactly when its alpha channel is above zero.
    pub open spec fn opaque_at(self, x: int, y: int) -> bool {
        self.pixel_at(x, y).a > 0
    }

    /// Column `x` holds at least one opaque pixel.
    pub open spec fn col_has_opaque(self, x: int) -> bool {
        exists|y: int| 0 <= y < self.height && self.opaque_at(x, y)
    }

    /// Row `y` holds at least one opaque pixel.
    pub open spec fn row_has_opaque(self, y: int) -> bool {
        exists|x: int| 0 <= x < self.width && self.opaque_at(x, y)
    }

    /// The image holds at least one opaque pixel.
    pub open spec fn has_opaque(self) -> bool {
        exists|x: int| 0 <= x < self.width && self.col_has_opaque(x)
    }

    pub fn new(width: u32, height: u32, pixels: Vec<Rgba>) -> (r: Image)
        requires
            pixels@.len() == (width as int) * (height as int),
        ensures
            r.wf(),
            r.width == width,
            r.height == height,
            r.pixels@ == pixels@,
    {
        Image { width, height, pixels }
    }

    pub fn get(&self, x: u32, y: u32) -> (r: Rgba)
        requires
            self.wf(),
            x < self.width,
            y < self.height,
        ensures
            r == self.pixel_at(x as int, y as int),
    {
        proof {
            lemma_flat_index_in_range(x as int, y as int, self.width as int, self.height as int);
        }
        let n: usize = self.pixels.len();
        let idx: usize = (y as usize) * (self.width as usize) + (x as usize);
        self.pixels[idx]
    }
}

/// Row-major flattening stays inside the pixel buffer.
pub proof fn lemma_flat_index_in_range(x: int, y: int, w: int, h: int)
    requires
        0 <= x < w,
        0 <= y < h,
    ensures
        0 <= y * w + x < w * h,
{
    assert(y * w + x < w * h) by (nonlinear_arith)
        requires
            0 <= x < w,
            0 <= y < h,
    ;
    assert(0 <= y * w + x) by (nonlinear_arith)
        requires
            0 <= x,
            0 <= y,
            0 < w,
    ;
}

} // verus!
