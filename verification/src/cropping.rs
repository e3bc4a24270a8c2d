//! Auto-cropping: the tight bounding box of the non-transparent pixels.

use vstd::prelude::*;
use crate::raster::Image;
use crate::raster::lemma_flat_index_in_range;

verus! {

/// The bounding box found by the alpha scan. The crop rectangle is
/// `[left, right) x [top, bottom)`, so the cropped width and height are
/// `right - left` and `bottom - top`. On an image with opaque pixels,
/// `right` and `bottom` are the largest opaque column and row; on an
/// all-transparent image they default to `width` and `height`, keeping the
/// full dimensions.
#[derive(Clone, Copy, Debug, PartialEq, Eq, Structural)]
pub struct Bounds {
    pub left: u32,
    pub right: u32,
    pub top: u32,
    pub bottom: u32,
}

/// What the alpha scan returns: on an image with at least one opaque pixel,
/// `left`/`right` are the least/greatest columns holding an opaque pixel and
/// `top`/`bottom` the least/greatest such rows; on an all-transparent image
/// the full dimensions are kept.
pub open spec fn is_crop_bounds(img: Image, b: Bounds) -> bool {
    if img.has_opaque() {
        &&& b.left < img.width
        &&& b.right < img.width
        &&& b.top < img.height
        &&& b.bottom < img.height
        &&& img.col_has_opaque(b.left as int)
        &&& img.col_has_opaque(b.right as int)
        &&& img.row_has_opaque(b.top as int)
        &&& img.row_has_opaque(b.bottom as int)
        &&& forall|x: int| 0 <= x < img.width && img.col_has_opaque(x) ==> b.left <= x <= b.right
        &&& forall|y: int|
            0 <= y < img.height && img.row_has_opaque(y) ==> b.top <= y <= b.bottom
    } else {
        b == (Bounds { left: 0, right: img.width, top: 0, bottom: img.height })
    }
}

/// An image with an opaque pixel has an opaque row as well as an opaque column.
proof fn lemma_opaque_row_exists(img: Image)
    requires
        img.has_opaque(),
    ensures
        exists|y: int| 0 <= y < img.height && img.row_has_opaque(y),
{
    let x = choose|x: int| 0 <= x < img.width && img.col_has_opaque(x);
    let y = choose|y: int| 0 <= y < img.height && img.opaque_at(x, y);
    assert(0 <= x < img.width && img.opaque_at(x, y));
    assert(img.row_has_opaque(y));
}

/// Whether column `x` holds an opaque pixel, by the same ascending-`y` scan
/// the bounding-box search uses.
fn col_opaque(img: &Image, x: u32) -> (r: bool)
    requires
        img.wf(),
        x < img.width,
    ensures
        r == img.col_has_opaque(x as int),
{
    let mut y: u32 = 0;
    while y < img.height
        invariant
            img.wf(),
            x < img.width,
            y <= img.height,
            forall|yy: int| 0 <= yy < y ==> !img.opaque_at(x as int, yy),
        decreases img.height - y,
    {
        if img.get(x, y).a > 0 {
            proof {
                assert(0 <= y < img.height && img.opaque_at(x as int, y as int));
            }
            return true;
        }
        y += 1;
    }
    false
}

/// Whether row `y` holds an opaque pixel.
fn row_opaque(img: &Image, y: u32) -> (r: bool)
    requires
        img.wf(),
        y < img.height,
    ensures
        r == img.row_has_opaque(y as int),
{
    let mut x: u32 = 0;
    while x < img.width
        invariant
            img.wf(),
            y < img.height,
            x <= img.width,
            forall|xx: int| 0 <= xx < x ==> !img.opaque_at(xx, y as int),
        decreases img.width - x,
    {
        if img.get(x, y).a > 0 {
            proof {
                assert(0 <= x < img.width && img.opaque_at(x as int, y as int));
            }
            return true;
        }
        x += 1;
    }
    false
}

/// The least column holding an opaque pixel, or `None` when every pixel is
/// transparent.
fn find_left(img: &Image) -> (r: Option<u32>)
    requires
        img.wf(),
    ensures
        match r {
            Some(l) => l < img.width && img.col_has_opaque(l as int) && forall|x: int|
                0 <= x < l ==> !img.col_has_opaque(x),
            None => !img.has_opaque(),
        },
{
    let mut x: u32 = 0;
    while x < img.width
        invariant
            img.wf(),
            x <= img.width,
            forall|xx: int| 0 <= xx < x ==> !img.col_has_opaque(xx),
        decreases img.width - x,
    {
        if col_opaque(img, x) {
            return Some(x);
        }
        x += 1;
    }
    None
}

/// The greatest column holding an opaque pixel.
fn find_right(img: &Image) -> (r: u32)
    requires
        img.wf(),
        img.has_opaque(),
    ensures
        r < img.width,
        img.col_has_opaque(r as int),
        forall|x: int| r < x < img.width ==> !img.col_has_opaque(x),
{
    let mut x: u32 = img.width;
    while x > 0
        invariant
            img.wf(),
            img.has_opaque(),
            x <= img.width,
            forall|xx: int| x <= xx < img.width ==> !img.col_has_opaque(xx),
        decreases x,
    {
        let c = x - 1;
        if col_opaque(img, c) {
            return c;
        }
        x = c;
    }
    proof {
        let wx = choose|xx: int| 0 <= xx < img.width && img.col_has_opaque(xx);
        assert(false);
    }
    0
}

/// The least row holding an opaque pixel.
fn find_top(img: &Image) -> (r: u32)
    requires
        img.wf(),
        img.has_opaque(),
    ensures
        r < img.height,
        img.row_has_opaque(r as int),
        forall|y: int| 0 <= y < r ==> !img.row_has_opaque(y),
{
    let mut y: u32 = 0;
    while y < img.height
        invariant
            img.wf(),
            img.has_opaque(),
            y <= img.height,
            forall|yy: int| 0 <= yy < y ==> !img.row_has_opaque(yy),
        decreases img.height - y,
    {
        if row_opaque(img, y) {
            return y;
        }
        y += 1;
    }
    proof {
        lemma_opaque_row_exists(*img);
        let wy = choose|yy: int| 0 <= yy < img.height && img.row_has_opaque(yy);
        assert(false);
    }
    0
}

/// The greatest row holding an opaque pixel.
fn find_bottom(img: &Image) -> (r: u32)
    requires
        img.wf(),
        img.has_opaque(),
    ensures
        r < img.height,
        img.row_has_opaque(r as int),
        forall|y: int| r < y < img.height ==> !img.row_has_opaque(y),
{
    let mut y: u32 = img.height;
    while y > 0
        invariant
            img.wf(),
            img.has_opaque(),
            y <= img.height,
            forall|yy: int| y <= yy < img.height ==> !img.row_has_opaque(yy),
        decreases y,
    {
        let c = y - 1;
        if row_opaque(img, c) {
            return c;
        }
        y = c;
    }
    proof {
        lemma_opaque_row_exists(*img);
        let wy = choose|yy: int| 0 <= yy < img.height && img.row_has_opaque(yy);
        assert(false);
    }
    0
}

/// Scans the alpha channel for the tight bounding box of the opaque pixels.
pub fn crop_bounds(img: &Image) -> (b: Bounds)
    requires
        img.wf(),
    ensures
        is_crop_bounds(*img, b),
        b.left <= b.right <= img.width,
        b.top <= b.bottom <= img.height,
{
    match find_left(img) {
        None => Bounds { left: 0, right: img.width, top: 0, bottom: img.height },
        Some(l) => {
            proof {
                assert(img.has_opaque());
            }
            let r = find_right(img);
            let t = find_top(img);
            let bo = find_bottom(img);
            Bounds { left: l, right: r, top: t, bottom: bo }
        },
    }
}

/// Copies the rectangle of `w * h` pixels whose top-left corner sits at
/// `(left, top)` in `img`.
pub fn crop(img: &Image, left: u32, top: u32, w: u32, h: u32) -> (r: Image)
    requires
        img.wf(),
        left + w <= img.width,
        top + h <= img.height,
    ensures
        r.wf(),
        r.width == w,
        r.height == h,
        forall|x: int, y: int|
            0 <= x < w && 0 <= y < h ==> r.pixel_at(x, y) == img.pixel_at(left + x, top + y),
{
    let mut pixels: Vec<crate::raster::Rgba> = Vec::new();
    let mut y: u32 = 0;
    while y < h
        invariant
            img.wf(),
            left + w <= img.width,
            top + h <= img.height,
            y <= h,
            pixels@.len() == y * w,
            forall|j: int|
                0 <= j < pixels@.len() ==> #[trigger] pixels@[j] == img.pixel_at(
                    left + (j % (w as int)),
                    top + (j / (w as int)),
                ),
        decreases h - y,
    {
        let mut x: u32 = 0;
        while x < w
            invariant
                img.wf(),
                left + w <= img.width,
                top + h <= img.height,
                y < h,
                x <= w,
                pixels@.len() == y * w + x,
                forall|j: int|
                    0 <= j < pixels@.len() ==> #[trigger] pixels@[j] == img.pixel_at(
                        left + (j % (w as int)),
                        top + (j / (w as int)),
                    ),
            decreases w - x,
        {
            let p = img.get(left + x, top + y);
            pixels.push(p);
            proof {
                vstd::arithmetic::div_mod::lemma_fundamental_div_mod_converse(
                    y * w + x,
                    w as int,
                    y as int,
                    x as int,
                );
            }
            x += 1;
        }
        proof {
            assert((y + 1) * (w as int) == y * (w as int) + w) by (nonlinear_arith);
        }
        y += 1;
    }
    proof {
        assert((h as int) * (w as int) == (w as int) * (h as int)) by (nonlinear_arith);
    }
    let r = Image { width: w, height: h, pixels };
    proof {
        assert forall|x: int, y: int| 0 <= x < w && 0 <= y < h implies r.pixel_at(x, y)
            == img.pixel_at(left + x, top + y) by {
            lemma_flat_index_in_range(x, y, w as int, h as int);
            vstd::arithmetic::div_mod::lemma_fundamental_div_mod_converse(
                y * (w as int) + x,
                w as int,
                y,
                x,
            );
            assert(pixels@[y * (w as int) + x] == img.pixel_at(left + x, top + y));
        }
    }
    r
}

/// `r` is `orig` cropped to its tight opaque bounding box: its dimensions
/// are the box's width and height, and its pixels are `orig`'s from the
/// box's top-left corner on.
pub open spec fn is_auto_crop(orig: Image, r: Image) -> bool {
    exists|b: Bounds|
        {
            &&& #[trigger] is_crop_bounds(orig, b)
            &&& r.width == b.right - b.left
            &&& r.height == b.bottom - b.top
            &&& forall|x: int, y: int|
                0 <= x < r.width && 0 <= y < r.height ==> r.pixel_at(x, y) == orig.pixel_at(
                    b.left + x,
                    b.top + y,
                )
        }
}

/// Auto-crop: the image restricted to the tight bounding box of its opaque
/// pixels. On an all-transparent image the full dimensions come back
/// unchanged.
pub fn auto_crop(img: &Image) -> (r: Image)
    requires
        img.wf(),
    ensures
        r.wf(),
        r.width <= img.width,
        r.height <= img.height,
        is_auto_crop(*img, r),
        !img.has_opaque() ==> {
            &&& r.width == img.width
            &&& r.height == img.height
            &&& forall|x: int, y: int|
                0 <= x < img.width && 0 <= y < img.height ==> r.pixel_at(x, y) == img.pixel_at(
                    x,
                    y,
                )
        },
{
    let b = crop_bounds(img);
    let r = crop(img, b.left, b.top, b.right - b.left, b.bottom - b.top);
    proof {
        assert(is_crop_bounds(*img, b) && r.width == b.right - b.left && r.height == b.bottom
            - b.top && forall|x: int, y: int|
            0 <= x < r.width && 0 <= y < r.height ==> r.pixel_at(x, y) == img.pixel_at(
                b.left + x,
                b.top + y,
            ));
        assert(is_auto_crop(*img, r));
    }
    r
}

/// Only one bounding box satisfies the scan's characterization, so the
/// cropped image is determined by the input alone.
pub proof fn lemma_crop_bounds_unique(img: Image, b1: Bounds, b2: Bounds)
    requires
        is_crop_bounds(img, b1),
        is_crop_bounds(img, b2),
    ensures
        b1 == b2,
{
    if img.has_opaque() {
        assert(b2.left <= b1.left <= b2.right);
        assert(b1.left <= b2.left <= b1.right);
        assert(b2.left <= b1.right <= b2.right);
        assert(b1.left <= b2.right <= b1.right);
        assert(b2.top <= b1.top <= b2.bottom);
        assert(b1.top <= b2.top <= b1.bottom);
        assert(b2.top <= b1.bottom <= b2.bottom);
        assert(b1.top <= b2.bottom <= b1.bottom);
    }
}

/// The bounding box is the smallest rectangle holding every opaque pixel:
/// any rectangle `[l2, r2] x [t2, b2]` that holds them all contains it.
pub proof fn lemma_crop_bounds_smallest(img: Image, b: Bounds, l2: int, r2: int, t2: int, b2: int)
    requires
        img.has_opaque(),
        is_crop_bounds(img, b),
        forall|x: int, y: int|
            0 <= x < img.width && 0 <= y < img.height && img.opaque_at(x, y) ==> l2 <= x <= r2
                && t2 <= y <= b2,
    ensures
        l2 <= b.left,
        b.right <= r2,
        t2 <= b.top,
        b.bottom <= b2,
{
    let yl = choose|y: int| 0 <= y < img.height && img.opaque_at(b.left as int, y);
    assert(l2 <= b.left as int);
    let yr = choose|y: int| 0 <= y < img.height && img.opaque_at(b.right as int, y);
    assert(b.right as int <= r2);
    let xt = choose|x: int| 0 <= x < img.width && img.opaque_at(x, b.top as int);
    assert(t2 <= b.top as int);
    let xb = choose|x: int| 0 <= x < img.width && img.opaque_at(x, b.bottom as int);
    assert(b.bottom as int <= b2);
}

} // verus!
