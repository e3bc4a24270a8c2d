//! Decoding input images and encoding the finished sheet, through the image
//! codec crate. Only the byte/pixel conversions are verified; the codec
//! calls themselves stand behind trusted wrappers.

use vstd::prelude::*;
use vstd::string::StrSliceExecFns;
use crate::errors::SheetError;
use crate::raster::Image;
use crate::raster::Rgba;

verus! {

/// The pixel that bytes `4j .. 4j + 4` of a raw RGBA buffer spell.
pub open spec fn rgba_at(bytes: Seq<u8>, j: int) -> Rgba {
    Rgba { r: bytes[4 * j], g: bytes[4 * j + 1], b: bytes[4 * j + 2], a: bytes[4 * j + 3] }
}

/// What decoding a byte buffer yields once normalized to 8-bit RGBA: the
/// dimensions and the raw pixel bytes, or nothing when the bytes are not a
/// decodable image. A pure function of the bytes alone; the codec crate
/// keeps process-global decoder-hook registries that could break this for a
/// consumer who registers one, but this library never registers any.
pub uninterp spec fn decoded_rgba(bytes: Seq<u8>) -> Option<(u32, u32, Seq<u8>)>;

/// Relies on image::load_from_memory and DynamicImage::to_rgba8: decodes any
/// supported raster format held in memory, normalizes it to 8-bit RGBA (so
/// every decodable image exposes an alpha channel), and hands back exactly
/// four bytes per pixel.
#[verifier::external_body]
fn decode_rgba(bytes: &Vec<u8>) -> (r: Result<(u32, u32, Vec<u8>), String>)
    ensures
        r is Ok <==> decoded_rgba(bytes@) is Some,
        r matches Ok(t) ==> decoded_rgba(bytes@) == Some((t.0, t.1, t.2@)),
        r matches Ok(t) ==> t.2@.len() == 4 * (t.0 as int) * (t.1 as int),
{
    match image::load_from_memory(bytes.as_slice()) {
        Ok(decoded) => {
            let rgba = decoded.to_rgba8();
            let (w, h) = (rgba.width(), rgba.height());
            Ok((w, h, rgba.into_raw()))
        },
        Err(e) => Err(e.to_string()),
    }
}

/// The raw RGBA byte buffer an image flattens to: four bytes per pixel, in
/// channel order r, g, b, a.
pub open spec fn raw_of(img: Image) -> Seq<u8> {
    Seq::new(
        4 * img.pixels@.len(),
        |k: int|
            {
                let p = img.pixels@[k / 4];
                if k % 4 == 0 {
                    p.r
                } else if k % 4 == 1 {
                    p.g
                } else if k % 4 == 2 {
                    p.b
                } else {
                    p.a
                }
            },
    )
}

/// What encoding a `w x h` raw RGBA buffer in the format named by the file
/// extension `ext` yields, or nothing when the extension names no format or
/// the encoder rejects the image (a zero dimension, a size the format
/// cannot hold). In-memory encoding is a pure function of these arguments
/// alone.
pub uninterp spec fn encoded(w: u32, h: u32, raw: Seq<u8>, ext: Seq<char>) -> Option<Seq<u8>>;

/// Relies on image::ImageFormat::from_extension for the format the
/// extension names, and on image::RgbaImage::from_raw plus
/// ImageBuffer::write_to to encode into it in memory. The buffer holds
/// exactly four bytes per pixel, so `from_raw` accepts it.
#[verifier::external_body]
fn encode_rgba(width: u32, height: u32, raw: &Vec<u8>, ext: &String) -> (r: Result<
    Vec<u8>,
    String,
>)
    requires
        raw@.len() == 4 * (width as int) * (height as int),
    ensures
        r is Ok <==> encoded(width, height, raw@, ext@) is Some,
        r matches Ok(v) ==> v@ == encoded(width, height, raw@, ext@).unwrap(),
{
    let fmt = match image::ImageFormat::from_extension(ext.as_str()) {
        Some(f) => f,
        None => return Err("no format known for this extension".to_string()),
    };
    let buf = image::RgbaImage::from_raw(width, height, raw.clone()).unwrap();
    let mut out = std::io::Cursor::new(Vec::new());
    match buf.write_to(&mut out, fmt) {
        Ok(()) => Ok(out.into_inner()),
        Err(e) => Err(e.to_string()),
    }
}

/// Groups a raw RGBA byte buffer into pixels, four bytes each.
pub fn image_from_raw(width: u32, height: u32, bytes: &Vec<u8>) -> (r: Image)
    requires
        bytes@.len() == 4 * (width as int) * (height as int),
    ensures
        r.wf(),
        r.width == width,
        r.height == height,
        forall|j: int| 0 <= j < r.pixels@.len() ==> #[trigger] r.pixels@[j] == rgba_at(bytes@, j),
{
    let count: usize = bytes.len() / 4;
    proof {
        assert(4 * ((width as int) * (height as int)) == 4 * (width as int) * (height as int))
            by (nonlinear_arith);
        assert((4 * ((width as int) * (height as int))) / 4 == (width as int) * (height as int))
            by (nonlinear_arith);
        assert(count == (width as int) * (height as int));
    }
    let total: usize = bytes.len();
    let mut pixels: Vec<Rgba> = Vec::new();
    let mut i: usize = 0;
    while i < count
        invariant
            bytes@.len() == 4 * count,
            bytes@.len() == total,
            i <= count,
            pixels@.len() == i,
            forall|j: int| 0 <= j < i ==> #[trigger] pixels@[j] == rgba_at(bytes@, j),
        decreases count - i,
    {
        let p = Rgba {
            r: bytes[4 * i],
            g: bytes[4 * i + 1],
            b: bytes[4 * i + 2],
            a: bytes[4 * i + 3],
        };
        pixels.push(p);
        i += 1;
    }
    Image { width, height, pixels }
}

/// Flattens an image back into a raw RGBA byte buffer, four bytes per pixel.
pub fn image_to_raw(img: &Image) -> (r: Vec<u8>)
    requires
        img.wf(),
    ensures
        r@.len() == 4 * (img.width as int) * (img.height as int),
        forall|j: int| 0 <= j < img.pixels@.len() ==> rgba_at(r@, j) == #[trigger] img.pixels@[j],
        r@ == raw_of(*img),
{
    let count: usize = img.pixels.len();
    let mut out: Vec<u8> = Vec::new();
    let mut i: usize = 0;
    while i < count
        invariant
            img.wf(),
            count == img.pixels@.len(),
            i <= count,
            out@.len() == 4 * i,
            forall|j: int| 0 <= j < i ==> rgba_at(out@, j) == #[trigger] img.pixels@[j],
        decreases count - i,
    {
        let p = img.pixels[i];
        out.push(p.r);
        out.push(p.g);
        out.push(p.b);
        out.push(p.a);
        i += 1;
    }
    proof {
        assert(4 * ((img.width as int) * (img.height as int)) == 4 * (img.width as int) * (
        img.height as int)) by (nonlinear_arith);
        assert forall|k: int| 0 <= k < out@.len() implies out@[k] == raw_of(*img)[k] by {
            vstd::arithmetic::div_mod::lemma_fundamental_div_mod(k, 4);
            vstd::arithmetic::div_mod::lemma_mod_bound(k, 4);
            let j = k / 4;
            assert(0 <= j < img.pixels@.len());
            assert(rgba_at(out@, j) == img.pixels@[j]);
        }
        assert(out@ =~= raw_of(*img));
    }
    out
}

/// The output path's extension: the characters after the last dot, or
/// nothing when the path has no dot. It names the encoding format.
pub fn extension_of(path: &String) -> (r: Option<String>)
    ensures
        r matches Some(e) ==> exists|k: int|
            {
                &&& 0 <= k < path@.len()
                &&& #[trigger] path@[k] == '.'
                &&& forall|k2: int| k < k2 < path@.len() ==> path@[k2] != '.'
                &&& e@ == path@.subrange(k + 1, path@.len() as int)
            },
        r is None ==> forall|k: int| 0 <= k < path@.len() ==> path@[k] != '.',
{
    let s = path.as_str();
    let n: usize = s.unicode_len();
    let mut k: usize = n;
    while k > 0
        invariant
            n == path@.len(),
            s@ == path@,
            k <= n,
            forall|k2: int| k <= k2 < path@.len() ==> path@[k2] != '.',
        decreases k,
    {
        let c: usize = k - 1;
        if s.get_char(c) == '.' {
            let ext = s.substring_char(k, n).to_owned();
            proof {
                assert(path@[c as int] == '.');
            }
            return Some(ext);
        }
        k = c;
    }
    None
}

/// Decodes one input's bytes into the raster model, or a decode error naming
/// the input's path. Succeeds exactly on decodable bytes, and then carries
/// the decoded dimensions and pixels.
pub fn decode_image(path: &String, bytes: &Vec<u8>) -> (r: Result<Image, SheetError>)
    ensures
        r is Ok <==> decoded_rgba(bytes@) is Some,
        r matches Ok(img) ==> ({
            let d = decoded_rgba(bytes@).unwrap();
            &&& img.wf()
            &&& img.width == d.0
            &&& img.height == d.1
            &&& forall|j: int| 0 <= j < img.pixels@.len() ==> #[trigger] img.pixels@[j]
                == rgba_at(d.2, j)
        }),
        r matches Err(e) ==> e matches SheetError::Decode { path: p, msg } && p@ == path@,
{
    match decode_rgba(bytes) {
        Ok((w, h, raw)) => Ok(image_from_raw(w, h, &raw)),
        Err(msg) => Err(SheetError::Decode { path: path.clone(), msg }),
    }
}

/// Encodes the finished sheet in the format named by `ext` (the output
/// path's extension), or an encode error naming the output path. Succeeds
/// exactly when the codec encodes this image under this extension, and then
/// carries exactly those encoded bytes.
pub fn encode_image(img: &Image, path: &String, ext: &String) -> (r: Result<Vec<u8>, SheetError>)
    requires
        img.wf(),
    ensures
        r is Ok <==> encoded(img.width, img.height, raw_of(*img), ext@) is Some,
        r matches Ok(v) ==> v@ == encoded(img.width, img.height, raw_of(*img), ext@).unwrap(),
        r matches Err(e) ==> e matches SheetError::Encode { path: p, msg } && p@ == path@,
{
    let raw = image_to_raw(img);
    match encode_rgba(img.width, img.height, &raw, ext) {
        Ok(v) => Ok(v),
        Err(msg) => Err(SheetError::Encode { path: path.clone(), msg }),
    }
}

} // verus!
