//! Layout: the uniform cell size, the sheet size, and each sprite's offset
//! within its cell.

use vstd::prelude::*;
use crate::raster::Image;

verus! {

/// How a sprite smaller than its cell is positioned within it.
#[derive(Clone, Copy, Debug, PartialEq, Eq, Structural)]
pub enum Mode {
    Centered,
    TopLeft,
}

/// The offset of a `w * h` sprite within a `cell_w * cell_h` cell: `(0, 0)`
/// top-left, and floor-division centering otherwise, so any odd pixel of
/// slack goes to the right/bottom.
pub open spec fn spec_offset(cell_w: int, cell_h: int, w: int, h: int, mode: Mode) -> (int, int) {
    match mode {
        Mode::TopLeft => (0, 0),
        Mode::Centered => ((cell_w - w) / 2, (cell_h - h) / 2),
    }
}

/// The uniform cell size and the per-sprite offsets, plus the total sheet
/// size they give: one row of equally sized cells.
pub struct Layout {
    pub cell_w: u32,
    pub cell_h: u32,
    pub sheet_w: u32,
    pub sheet_h: u32,
    pub offsets: Vec<(u32, u32)>,
}

/// The uniform cell size: the maximum cropped width and height across all
/// sprites, or `(0, 0)` for an empty set.
pub fn cell_dims(sprites: &Vec<Image>) -> (r: (u32, u32))
    ensures
        forall|i: int|
            0 <= i < sprites@.len() ==> (#[trigger] sprites@[i]).width <= r.0 && sprites@[i].height
                <= r.1,
        sprites@.len() > 0 ==> (exists|i: int|
            0 <= i < sprites@.len() && (#[trigger] sprites@[i]).width == r.0) && (exists|i: int|
            0 <= i < sprites@.len() && (#[trigger] sprites@[i]).height == r.1),
        sprites@.len() == 0 ==> r == (0u32, 0u32),
{
    let mut max_w: u32 = 0;
    let mut max_h: u32 = 0;
    let n = sprites.len();
    let mut i: usize = 0;
    while i < n
        invariant
            n == sprites@.len(),
            i <= n,
            forall|j: int|
                0 <= j < i ==> (#[trigger] sprites@[j]).width <= max_w && sprites@[j].height
                    <= max_h,
            i > 0 ==> (exists|j: int|
                0 <= j < i && (#[trigger] sprites@[j]).width == max_w) && (exists|j: int|
                0 <= j < i && (#[trigger] sprites@[j]).height == max_h),
            i == 0 ==> max_w == 0 && max_h == 0,
        decreases n - i,
    {
        let w = sprites[i].width;
        let h = sprites[i].height;
        if w > max_w || i == 0 {
            max_w = w;
        }
        if h > max_h || i == 0 {
            max_h = h;
        }
        i += 1;
    }
    (max_w, max_h)
}

/// One sprite's placement offset within its cell.
pub fn offset_for(cell_w: u32, cell_h: u32, w: u32, h: u32, mode: Mode) -> (r: (u32, u32))
    requires
        w <= cell_w,
        h <= cell_h,
    ensures
        (r.0 as int, r.1 as int) == spec_offset(
            cell_w as int,
            cell_h as int,
            w as int,
            h as int,
            mode,
        ),
        mode == Mode::TopLeft ==> r == (0u32, 0u32),
        w == cell_w && h == cell_h ==> r == (0u32, 0u32),
        r.0 + w <= cell_w,
        r.1 + h <= cell_h,
{
    match mode {
        Mode::TopLeft => (0, 0),
        Mode::Centered => ((cell_w - w) / 2, (cell_h - h) / 2),
    }
}

/// The offsets of all sprites, in input order.
pub fn offsets_for(sprites: &Vec<Image>, cell_w: u32, cell_h: u32, mode: Mode) -> (r: Vec<
    (u32, u32),
>)
    requires
        forall|i: int|
            0 <= i < sprites@.len() ==> (#[trigger] sprites@[i]).width <= cell_w
                && sprites@[i].height <= cell_h,
    ensures
        r@.len() == sprites@.len(),
        forall|i: int|
            0 <= i < sprites@.len() ==> ((#[trigger] r@[i]).0 as int, r@[i].1 as int)
                == spec_offset(
                cell_w as int,
                cell_h as int,
                sprites@[i].width as int,
                sprites@[i].height as int,
                mode,
            ),
        forall|i: int|
            0 <= i < sprites@.len() ==> (#[trigger] r@[i]).0 + sprites@[i].width <= cell_w
                && r@[i].1 + sprites@[i].height <= cell_h,
{
    let mut r: Vec<(u32, u32)> = Vec::new();
    let n = sprites.len();
    let mut i: usize = 0;
    while i < n
        invariant
            n == sprites@.len(),
            i <= n,
            r@.len() == i,
            forall|j: int|
                0 <= j < sprites@.len() ==> (#[trigger] sprites@[j]).width <= cell_w
                    && sprites@[j].height <= cell_h,
            forall|j: int|
                0 <= j < i ==> ((#[trigger] r@[j]).0 as int, r@[j].1 as int) == spec_offset(
                    cell_w as int,
                    cell_h as int,
                    sprites@[j].width as int,
                    sprites@[j].height as int,
                    mode,
                ),
            forall|j: int|
                0 <= j < i ==> (#[trigger] r@[j]).0 + sprites@[j].width <= cell_w && r@[j].1
                    + sprites@[j].height <= cell_h,
        decreases n - i,
    {
        let s = &sprites[i];
        let off = offset_for(cell_w, cell_h, s.width, s.height, mode);
        r.push(off);
        i += 1;
    }
    r
}

/// Computes the whole layout: the maximum cropped dimensions as the cell
/// size, `cell_w * count` by `cell_h` as the sheet size, and one offset per
/// sprite according to `mode`.
pub fn layout(sprites: &Vec<Image>, mode: Mode) -> (r: Layout)
    requires
        sprites@.len() >= 1,
        sprites@.len() <= u32::MAX,
        forall|i: int|
            0 <= i < sprites@.len() ==> (#[trigger] sprites@[i]).width * sprites@.len()
                <= u32::MAX,
    ensures
        forall|i: int|
            0 <= i < sprites@.len() ==> (#[trigger] sprites@[i]).width <= r.cell_w
                && sprites@[i].height <= r.cell_h,
        (exists|i: int| 0 <= i < sprites@.len() && (#[trigger] sprites@[i]).width == r.cell_w),
        (exists|i: int| 0 <= i < sprites@.len() && (#[trigger] sprites@[i]).height == r.cell_h),
        r.sheet_w == r.cell_w * sprites@.len(),
        r.sheet_h == r.cell_h,
        r.offsets@.len() == sprites@.len(),
        forall|i: int|
            0 <= i < sprites@.len() ==> ((#[trigger] r.offsets@[i]).0 as int, r.offsets@[i].1
                as int) == spec_offset(
                r.cell_w as int,
                r.cell_h as int,
                sprites@[i].width as int,
                sprites@[i].height as int,
                mode,
            ),
        forall|i: int|
            0 <= i < sprites@.len() ==> (#[trigger] r.offsets@[i]).0 + sprites@[i].width
                <= r.cell_w && r.offsets@[i].1 + sprites@[i].height <= r.cell_h,
{
    let (cell_w, cell_h) = cell_dims(sprites);
    let n = sprites.len();
    proof {
        let wi = choose|i: int| 0 <= i < sprites@.len() && (#[trigger] sprites@[i]).width
            == cell_w;
        assert(sprites@[wi].width * sprites@.len() <= u32::MAX);
    }
    let sheet_w: u32 = cell_w * (n as u32);
    let offsets = offsets_for(sprites, cell_w, cell_h, mode);
    Layout { cell_w, cell_h, sheet_w, sheet_h: cell_h, offsets }
}

} // verus!
