//! Compositing: filling the output sheet pixel by pixel.

use vstd::prelude::*;
use crate::raster::Image;
use crate::raster::Rgba;
use crate::raster::transparent;
use crate::raster::lemma_flat_index_in_range;

verus! {

/// The pixel the sheet holds at `(x, y)`: output column `x` falls in cell
/// `x / cell_w`; the coordinate local to that cell, minus the sprite's
/// offset, picks a sprite pixel when it lands inside the sprite, and is
/// fully transparent otherwise.
pub open spec fn output_pixel(
    sprites: Seq<Image>,
    offsets: Seq<(u32, u32)>,
    cell_w: int,
    cell_h: int,
    x: int,
    y: int,
) -> Rgba {
    let idx = x / cell_w;
    let s = sprites[idx];
    let lx = (x % cell_w) - offsets[idx].0;
    let ly = (y % cell_h) - offsets[idx].1;
    if 0 <= lx < s.width && 0 <= ly < s.height {
        s.pixel_at(lx, ly)
    } else {
        transparent()
    }
}

/// One output pixel, as `output_pixel` states it.
fn pixel_for(
    sprites: &Vec<Image>,
    offsets: &Vec<(u32, u32)>,
    cell_w: u32,
    cell_h: u32,
    x: u32,
    y: u32,
) -> (p: Rgba)
    requires
        sprites@.len() == offsets@.len(),
        forall|i: int|
            0 <= i < sprites@.len() ==> (#[trigger] sprites@[i]).wf() && sprites@[i].width
                <= cell_w && sprites@[i].height <= cell_h,
        cell_w > 0,
        x < cell_w * sprites@.len(),
        y < cell_h,
    ensures
        p == output_pixel(sprites@, offsets@, cell_w as int, cell_h as int, x as int, y as int),
{
    proof {
        assert((x as int) / (cell_w as int) < sprites@.len()) by (nonlinear_arith)
            requires
                0 < cell_w,
                0 <= x,
                (x as int) < (cell_w as int) * sprites@.len(),
        ;
    }
    let idx: usize = (x / cell_w) as usize;
    let s = &sprites[idx];
    let off = offsets[idx];
    let mx = x % cell_w;
    let my = y % cell_h;
    if mx >= off.0 && mx - off.0 < s.width && my >= off.1 && my - off.1 < s.height {
        s.get(mx - off.0, my - off.1)
    } else {
        Rgba { r: 0, g: 0, b: 0, a: 0 }
    }
}

/// Builds the sheet: one row of `count` cells of `cell_w * cell_h` pixels,
/// each holding its sprite at its offset, transparent everywhere else.
pub fn compose(sprites: &Vec<Image>, offsets: &Vec<(u32, u32)>, cell_w: u32, cell_h: u32) -> (r:
    Image)
    requires
        sprites@.len() == offsets@.len(),
        sprites@.len() >= 1,
        sprites@.len() <= u32::MAX,
        forall|i: int|
            0 <= i < sprites@.len() ==> (#[trigger] sprites@[i]).wf() && sprites@[i].width
                <= cell_w && sprites@[i].height <= cell_h,
        (cell_w as int) * sprites@.len() <= u32::MAX,
        (cell_w as int) * sprites@.len() * (cell_h as int) <= usize::MAX,
    ensures
        r.wf(),
        r.width == (cell_w as int) * sprites@.len(),
        r.height == cell_h,
        forall|x: int, y: int|
            0 <= x < r.width && 0 <= y < r.height ==> r.pixel_at(x, y) == output_pixel(
                sprites@,
                offsets@,
                cell_w as int,
                cell_h as int,
                x,
                y,
            ),
{
    let n = sprites.len();
    let sheet_w: u32 = cell_w * (n as u32);
    let mut pixels: Vec<Rgba> = Vec::new();
    let mut y: u32 = 0;
    while y < cell_h
        invariant
            n == sprites@.len(),
            sprites@.len() == offsets@.len(),
            1 <= n <= u32::MAX,
            forall|i: int|
                0 <= i < sprites@.len() ==> (#[trigger] sprites@[i]).wf() && sprites@[i].width
                    <= cell_w && sprites@[i].height <= cell_h,
            sheet_w == (cell_w as int) * sprites@.len(),
            (sheet_w as int) * (cell_h as int) <= usize::MAX,
            y <= cell_h,
            pixels@.len() == y * sheet_w,
            forall|j: int|
                0 <= j < pixels@.len() ==> #[trigger] pixels@[j] == output_pixel(
                    sprites@,
                    offsets@,
                    cell_w as int,
                    cell_h as int,
                    j % (sheet_w as int),
                    j / (sheet_w as int),
                ),
        decreases cell_h - y,
    {
        let mut x: u32 = 0;
        proof {
            assert(y * sheet_w + sheet_w <= cell_h * sheet_w) by (nonlinear_arith)
                requires
                    0 <= y < cell_h,
                    0 <= sheet_w,
            ;
            assert(cell_h * sheet_w == sheet_w * cell_h) by (nonlinear_arith);
        }
        while x < sheet_w
            invariant
                n == sprites@.len(),
                sprites@.len() == offsets@.len(),
                1 <= n <= u32::MAX,
                forall|i: int|
                    0 <= i < sprites@.len() ==> (#[trigger] sprites@[i]).wf() && sprites@[i].width
                        <= cell_w && sprites@[i].height <= cell_h,
                sheet_w == (cell_w as int) * sprites@.len(),
                y * sheet_w + sheet_w <= usize::MAX,
                y < cell_h,
                x <= sheet_w,
                pixels@.len() == y * sheet_w + x,
                forall|j: int|
                    0 <= j < pixels@.len() ==> #[trigger] pixels@[j] == output_pixel(
                        sprites@,
                        offsets@,
                        cell_w as int,
                        cell_h as int,
                        j % (sheet_w as int),
                        j / (sheet_w as int),
                    ),
            decreases sheet_w - x,
        {
            proof {
                if cell_w == 0 {
                    assert(sheet_w == 0) by (nonlinear_arith)
                        requires
                            sheet_w == (cell_w as int) * sprites@.len(),
                            cell_w == 0,
                    ;
                }
            }
            let p = pixel_for(sprites, offsets, cell_w, cell_h, x, y);
            pixels.push(p);
            proof {
                vstd::arithmetic::div_mod::lemma_fundamental_div_mod_converse(
                    y * (sheet_w as int) + x,
                    sheet_w as int,
                    y as int,
                    x as int,
                );
            }
            x += 1;
        }
        proof {
            assert((y + 1) * (sheet_w as int) == y * (sheet_w as int) + sheet_w)
                by (nonlinear_arith);
        }
        y += 1;
    }
    proof {
        assert((cell_h as int) * (sheet_w as int) == (sheet_w as int) * (cell_h as int))
            by (nonlinear_arith);
    }
    let r = Image { width: sheet_w, height: cell_h, pixels };
    proof {
        assert forall|x: int, y: int| 0 <= x < r.width && 0 <= y < r.height implies r.pixel_at(
            x,
            y,
        ) == output_pixel(sprites@, offsets@, cell_w as int, cell_h as int, x, y) by {
            lemma_flat_index_in_range(x, y, sheet_w as int, cell_h as int);
            vstd::arithmetic::div_mod::lemma_fundamental_div_mod_converse(
                y * (sheet_w as int) + x,
                sheet_w as int,
                y,
                x,
            );
            assert(pixels@[y * (sheet_w as int) + x] == output_pixel(
                sprites@,
                offsets@,
                cell_w as int,
                cell_h as int,
                x,
                y,
            ));
        }
    }
    r
}

/// Every output pixel outside its sprite's placed rectangle is fully
/// transparent. Sprite `idx` is placed at columns `[idx * cell_w + dx,
/// idx * cell_w + dx + width)` and rows `[dy, dy + height)` of the sheet.
pub proof fn lemma_outside_sprite_transparent(
    sprites: Seq<Image>,
    offsets: Seq<(u32, u32)>,
    cell_w: int,
    cell_h: int,
    x: int,
    y: int,
    idx: int,
)
    requires
        cell_w > 0,
        cell_h > 0,
        0 <= x,
        0 <= y < cell_h,
        idx == x / cell_w,
        0 <= idx < sprites.len(),
        sprites.len() == offsets.len(),
        !(idx * cell_w + offsets[idx].0 <= x < idx * cell_w + offsets[idx].0 + sprites[idx].width
            && offsets[idx].1 <= y < offsets[idx].1 + sprites[idx].height),
    ensures
        output_pixel(sprites, offsets, cell_w, cell_h, x, y) == transparent(),
{
    vstd::arithmetic::div_mod::lemma_fundamental_div_mod(x, cell_w);
    vstd::arithmetic::div_mod::lemma_small_mod(y as nat, cell_h as nat);
    assert(x % cell_w == x - idx * cell_w);
}

/// Round-trip on the trivial layout: with a single sprite whose cropped size
/// equals the cell size, the sheet reproduces that sprite's pixels exactly,
/// at the offset the mode determines (which is then `(0, 0)` either way).
pub proof fn lemma_single_sprite_roundtrip(
    sprite: Image,
    off: (u32, u32),
    mode: crate::layout::Mode,
    cell_w: int,
    cell_h: int,
    x: int,
    y: int,
)
    requires
        sprite.wf(),
        sprite.width == cell_w,
        sprite.height == cell_h,
        cell_w > 0,
        cell_h > 0,
        (off.0 as int, off.1 as int) == crate::layout::spec_offset(
            cell_w,
            cell_h,
            sprite.width as int,
            sprite.height as int,
            mode,
        ),
        0 <= x < cell_w,
        0 <= y < cell_h,
    ensures
        off == (0u32, 0u32),
        output_pixel(seq![sprite], seq![off], cell_w, cell_h, x, y) == sprite.pixel_at(x, y),
{
    vstd::arithmetic::div_mod::lemma_basic_div_specific_divisor(cell_w);
    vstd::arithmetic::div_mod::lemma_small_mod(x as nat, cell_w as nat);
    vstd::arithmetic::div_mod::lemma_small_mod(y as nat, cell_h as nat);
}

} // verus!
