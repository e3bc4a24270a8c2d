//! The run itself: decode every input, crop every image, lay the sprites
//! out, and composite the sheet.

use vstd::prelude::*;
use crate::codec::decode_image;
use crate::codec::decoded_rgba;
use crate::codec::rgba_at;
use crate::compose::compose;
use crate::compose::output_pixel;
use crate::cropping::auto_crop;
use crate::cropping::is_auto_crop;
use crate::errors::SheetError;
use crate::layout::Mode;
use crate::layout::cell_dims;
use crate::layout::offsets_for;
use crate::layout::spec_offset;
use crate::raster::Image;

verus! {

/// `cropped` is `images`, each auto-cropped.
pub open spec fn are_crops(images: Seq<Image>, cropped: Seq<Image>) -> bool {
    &&& cropped.len() == images.len()
    &&& forall|i: int|
        0 <= i < images.len() ==> (#[trigger] cropped[i]).wf() && is_auto_crop(
            images[i],
            cropped[i],
        )
}

/// `(cell_w, cell_h)` is the uniform cell size of `cropped`: the maximum
/// width and height, each attained by some sprite.
pub open spec fn is_cell(cropped: Seq<Image>, cell_w: u32, cell_h: u32) -> bool {
    &&& forall|i: int|
        0 <= i < cropped.len() ==> (#[trigger] cropped[i]).width <= cell_w && cropped[i].height
            <= cell_h
    &&& exists|i: int| 0 <= i < cropped.len() && (#[trigger] cropped[i]).width == cell_w
    &&& exists|i: int| 0 <= i < cropped.len() && (#[trigger] cropped[i]).height == cell_h
}

/// `offsets` places each sprite in its cell as `mode` directs.
pub open spec fn are_offsets(
    cropped: Seq<Image>,
    cell_w: u32,
    cell_h: u32,
    mode: Mode,
    offsets: Seq<(u32, u32)>,
) -> bool {
    &&& offsets.len() == cropped.len()
    &&& forall|i: int|
        0 <= i < cropped.len() ==> ((#[trigger] offsets[i]).0 as int, offsets[i].1 as int)
            == spec_offset(
            cell_w as int,
            cell_h as int,
            cropped[i].width as int,
            cropped[i].height as int,
            mode,
        )
}

/// `sheet` is one row of `cell_w * cell_h` cells holding `sprites` at
/// `offsets`.
pub open spec fn is_composed(
    sprites: Seq<Image>,
    offsets: Seq<(u32, u32)>,
    cell_w: u32,
    cell_h: u32,
    sheet: Image,
) -> bool {
    &&& sheet.width == (cell_w as int) * sprites.len()
    &&& sheet.height == cell_h
    &&& forall|x: int, y: int|
        0 <= x < sheet.width && 0 <= y < sheet.height ==> sheet.pixel_at(x, y) == output_pixel(
            sprites,
            offsets,
            cell_w as int,
            cell_h as int,
            x,
            y,
        )
}

/// The sheet dimensions stay within what the machine can hold: the sheet
/// width fits the pixel coordinate type and the pixel count fits a vector.
pub open spec fn limits_ok(count: int, cell_w: u32, cell_h: u32) -> bool {
    &&& count <= u32::MAX
    &&& (cell_w as int) * count <= u32::MAX
    &&& (cell_w as int) * count * (cell_h as int) <= usize::MAX
}

/// `sheet` is the spritesheet of `cropped` under `mode`.
pub open spec fn is_sheet_for(cropped: Seq<Image>, mode: Mode, sheet: Image) -> bool {
    exists|cell: (u32, u32)|
        {
            &&& #[trigger] is_cell(cropped, cell.0, cell.1)
            &&& exists|offsets: Seq<(u32, u32)>|
                {
                    &&& #[trigger] are_offsets(cropped, cell.0, cell.1, mode, offsets)
                    &&& is_composed(cropped, offsets, cell.0, cell.1, sheet)
                }
        }
}

/// `sheet` is the spritesheet of `images` under `mode`: the composition of
/// their auto-crops.
pub open spec fn is_sheet_of(images: Seq<Image>, mode: Mode, sheet: Image) -> bool {
    exists|cropped: Seq<Image>|
        #[trigger] are_crops(images, cropped) && is_sheet_for(cropped, mode, sheet)
}

/// Auto-crops every image, keeping input order.
pub fn crop_all(images: &Vec<Image>) -> (r: Vec<Image>)
    requires
        forall|i: int| 0 <= i < images@.len() ==> (#[trigger] images@[i]).wf(),
    ensures
        are_crops(images@, r@),
        forall|i: int|
            0 <= i < images@.len() ==> (#[trigger] r@[i]).width <= images@[i].width
                && r@[i].height <= images@[i].height,
{
    let n = images.len();
    let mut r: Vec<Image> = Vec::new();
    let mut i: usize = 0;
    while i < n
        invariant
            n == images@.len(),
            i <= n,
            r@.len() == i,
            forall|j: int| 0 <= j < images@.len() ==> (#[trigger] images@[j]).wf(),
            forall|j: int|
                0 <= j < i ==> (#[trigger] r@[j]).wf() && is_auto_crop(images@[j], r@[j]),
            forall|j: int|
                0 <= j < i ==> (#[trigger] r@[j]).width <= images@[j].width && r@[j].height
                    <= images@[j].height,
        decreases n - i,
    {
        let c = auto_crop(&images[i]);
        r.push(c);
        i += 1;
    }
    r
}

/// Decodes every input, in order, each named by its path; the first input
/// that does not decode aborts the whole batch with its decode error.
pub fn load_sprites(inputs: &Vec<(String, Vec<u8>)>) -> (r: Result<Vec<Image>, SheetError>)
    ensures
        r is Ok <==> (forall|i: int|
            0 <= i < inputs@.len() ==> decoded_rgba((#[trigger] inputs@[i]).1@) is Some),
        r matches Ok(images) ==> ({
            &&& images@.len() == inputs@.len()
            &&& forall|i: int|
                0 <= i < inputs@.len() ==> ({
                    let d = decoded_rgba(inputs@[i].1@).unwrap();
                    &&& (#[trigger] images@[i]).wf()
                    &&& images@[i].width == d.0
                    &&& images@[i].height == d.1
                    &&& forall|j: int|
                        0 <= j < images@[i].pixels@.len() ==> #[trigger] images@[i].pixels@[j]
                            == rgba_at(d.2, j)
                })
        }),
        r matches Err(e) ==> ({
            &&& e matches SheetError::Decode { path, msg }
            &&& exists|i: int|
                {
                    &&& 0 <= i < inputs@.len()
                    &&& (#[trigger] inputs@[i]).0@ == path@
                    &&& decoded_rgba(inputs@[i].1@) is None
                    &&& forall|j: int| 0 <= j < i ==> decoded_rgba((#[trigger] inputs@[j]).1@) is Some
                }
        }),
{
    let n = inputs.len();
    let mut images: Vec<Image> = Vec::new();
    let mut i: usize = 0;
    while i < n
        invariant
            n == inputs@.len(),
            i <= n,
            images@.len() == i,
            forall|j: int| 0 <= j < i ==> decoded_rgba((#[trigger] inputs@[j]).1@) is Some,
            forall|j: int|
                0 <= j < i ==> ({
                    let d = decoded_rgba(inputs@[j].1@).unwrap();
                    &&& (#[trigger] images@[j]).wf()
                    &&& images@[j].width == d.0
                    &&& images@[j].height == d.1
                    &&& forall|k: int|
                        0 <= k < images@[j].pixels@.len() ==> #[trigger] images@[j].pixels@[k]
                            == rgba_at(d.2, k)
                }),
        decreases n - i,
    {
        let (path, bytes) = &inputs[i];
        match decode_image(path, bytes) {
            Ok(img) => {
                images.push(img);
            },
            Err(e) => {
                return Err(e);
            },
        }
        i += 1;
    }
    Ok(images)
}

/// Crops, lays out, and composites the sheet, or `None` when the sheet's
/// dimensions would overflow the machine's limits.
pub fn build_sheet(images: &Vec<Image>, mode: Mode) -> (r: Option<Image>)
    requires
        images@.len() >= 1,
        forall|i: int| 0 <= i < images@.len() ==> (#[trigger] images@[i]).wf(),
    ensures
        r matches Some(sheet) ==> sheet.wf() && is_sheet_of(images@, mode, sheet),
        r is None ==> exists|cropped: Seq<Image>|
            {
                &&& #[trigger] are_crops(images@, cropped)
                &&& exists|cell: (u32, u32)|
                    #[trigger] is_cell(cropped, cell.0, cell.1) && !limits_ok(
                        cropped.len() as int,
                        cell.0,
                        cell.1,
                    )
            },
{
    let cropped = crop_all(images);
    let (cell_w, cell_h) = cell_dims(&cropped);
    let n = cropped.len();
    proof {
        assert(is_cell(cropped@, cell_w, cell_h));
        assert(are_crops(images@, cropped@));
    }
    if n > (u32::MAX as usize) {
        proof {
            assert(!limits_ok(cropped@.len() as int, cell_w, cell_h));
        }
        return None;
    }
    proof {
        assert((cell_w as int) * (n as int) <= 0xffff_ffff * 0xffff_ffff) by (nonlinear_arith)
            requires
                0 <= cell_w <= 0xffff_ffffu64,
                0 <= n <= 0xffff_ffffu64,
        ;
    }
    let row_w: u64 = (cell_w as u64) * (n as u64);
    if row_w > (u32::MAX as u64) {
        proof {
            assert(!limits_ok(cropped@.len() as int, cell_w, cell_h));
        }
        return None;
    }
    proof {
        assert((row_w as int) * (cell_h as int) <= 0xffff_ffff * 0xffff_ffff) by (nonlinear_arith)
            requires
                0 <= row_w <= 0xffff_ffffu64,
                0 <= cell_h <= 0xffff_ffffu64,
        ;
    }
    let total: u64 = row_w * (cell_h as u64);
    if total > (usize::MAX as u64) {
        proof {
            assert(!limits_ok(cropped@.len() as int, cell_w, cell_h));
        }
        return None;
    }
    let offsets = offsets_for(&cropped, cell_w, cell_h, mode);
    let sheet = compose(&cropped, &offsets, cell_w, cell_h);
    proof {
        assert(is_cell(cropped@, cell_w, cell_h));
        assert(are_offsets(cropped@, cell_w, cell_h, mode, offsets@));
        assert(is_composed(cropped@, offsets@, cell_w, cell_h, sheet));
        assert(is_sheet_for(cropped@, mode, sheet));
        assert(is_sheet_of(images@, mode, sheet));
    }
    Some(sheet)
}

} // verus!
