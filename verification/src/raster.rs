//! Rasterising a drawing: its size in pixels, the buffer it is drawn into,
//! and the image file made of the buffer.

use resvg::tiny_skia::Pixmap;
use resvg::tiny_skia::Transform;
use resvg::usvg::Tree;
use vstd::prelude::*;
use crate::error::ConvertError;
use crate::fixed::floor_div;
use crate::fixed::wide_product;
use crate::layout::clamp;
use crate::options::MAX_RASTER_SCALE;
use crate::options::MIN_RASTER_SCALE;

verus! {

/// The square of `MICRO`: the steps in the product of two fixed-point values.
pub const MICRO_SQUARED: i128 = 1_000_000_000_000;

/// The number of pixels along a source length enlarged by a raster scale
/// held between 1 and 8: the product rounded to the nearest whole number,
/// halves up, and then held between 1 and `u32::MAX`.
#[verifier::inline]
pub open spec fn pixels(length: int, raster_scale: int) -> int {
    let factor = clamp(raster_scale, MIN_RASTER_SCALE as int, MAX_RASTER_SCALE as int);
    let rounded = (length * factor + MICRO_SQUARED / 2) / (MICRO_SQUARED as int);
    clamp(rounded, 1, u32::MAX as int)
}

/// Computes the number of pixels along a source length.
pub fn pixel_length(length: i64, raster_scale: i64) -> (px: u32)
    ensures
        px == pixels(length as int, raster_scale as int),
        px >= 1,
{
    let factor: i64 = if raster_scale < MIN_RASTER_SCALE {
        MIN_RASTER_SCALE
    } else if raster_scale > MAX_RASTER_SCALE {
        MAX_RASTER_SCALE
    } else {
        raster_scale
    };
    let product: i128 = wide_product(length, factor);
    assert(-0x40_0000_0000_0000_0000_0000 <= length * factor <= 0x40_0000_0000_0000_0000_0000)
        by (nonlinear_arith)
        requires
            -0x8000_0000_0000_0000 <= length <= 0x8000_0000_0000_0000,
            0 <= factor <= 0x80_0000,
    ;
    let rounded: i128 = floor_div(product + MICRO_SQUARED / 2, MICRO_SQUARED);
    if rounded < 1 {
        1
    } else if rounded > u32::MAX as i128 {
        u32::MAX
    } else {
        rounded as u32
    }
}

/// Computes the pixel size of a drawing of the given source size.
pub fn raster_dimensions(width: i64, height: i64, raster_scale: i64) -> (size: (u32, u32))
    ensures
        size.0 == pixels(width as int, raster_scale as int),
        size.1 == pixels(height as int, raster_scale as int),
{
    (pixel_length(width, raster_scale), pixel_length(height, raster_scale))
}

/// `tiny_skia::Transform`, an affine map of the plane. Opaque here.
#[verifier::external_type_specification]
#[verifier::external_body]
pub struct ExTransform(resvg::tiny_skia::Transform);

/// `tiny_skia::Pixmap`, a buffer of pixels. Opaque here.
#[verifier::external_type_specification]
#[verifier::external_body]
pub struct ExPixmap(resvg::tiny_skia::Pixmap);

/// The number of pixels in one row of a pixel buffer.
pub uninterp spec fn pixmap_width(pixmap: Pixmap) -> int;

/// The number of rows of a pixel buffer.
pub uninterp spec fn pixmap_height(pixmap: Pixmap) -> int;

/// The bytes of a pixel buffer: its pixels row after row, four bytes to the
/// pixel.
pub uninterp spec fn pixmap_pixels(pixmap: Pixmap) -> Seq<u8>;

/// What `Pixmap::encode_png` makes of a buffer of the given size and bytes:
/// the image file, or the encoder's description of its failure.
pub uninterp spec fn png_file(width: int, height: int, pixels: Seq<u8>) -> Result<
    Seq<u8>,
    Seq<char>,
>;

/// The eight bytes with which every PNG file begins.
pub open spec fn png_signature() -> Seq<u8> {
    seq![137u8, 80u8, 78u8, 71u8, 13u8, 10u8, 26u8, 10u8]
}

/// Whether `bytes` begin with the PNG signature.
pub open spec fn begins_as_png(bytes: Seq<u8>) -> bool {
    bytes.len() >= 8 && bytes.subrange(0, 8) == png_signature()
}

/// The contents of an encoder's answer.
pub open spec fn encoded_view(encoded: Result<Vec<u8>, String>) -> Result<Seq<u8>, Seq<char>> {
    match encoded {
        Ok(bytes) => Ok(bytes@),
        Err(text) => Err(text@),
    }
}

/// The longest side of a buffer that the renderer can draw into: a fifth of
/// `i32::MAX`.
pub const MAX_SURFACE_SIDE: u32 = 429_496_729;

/// Whether a pixel buffer of this size can be made: neither side is zero, a
/// row of four bytes to the pixel is at most `i32::MAX` bytes long, and the
/// length of the whole fits the machine's addresses.
pub open spec fn allocatable(width: u32, height: u32) -> bool {
    &&& width > 0
    &&& height > 0
    &&& 4 * width <= i32::MAX
    &&& 4 * width * height <= usize::MAX
}

/// Whether a drawing can be rasterised at this size: a buffer of the size
/// can be made, its length is one that a vector can have, and neither side
/// is longer than the renderer can address.
pub open spec fn renderable(width: u32, height: u32) -> bool {
    &&& allocatable(width, height)
    &&& 4 * width * height <= isize::MAX
    &&& width <= MAX_SURFACE_SIDE
    &&& height <= MAX_SURFACE_SIDE
}

/// Calls `Pixmap::new`, which makes a buffer exactly for the sizes that
/// `allocatable` admits. The buffer is a vector of four bytes to the pixel,
/// and a vector cannot be longer than `isize::MAX`.
#[verifier::external_body]
fn new_pixmap(width: u32, height: u32) -> (pixmap: Option<Pixmap>)
    requires
        4 * width * height <= isize::MAX,
    ensures
        pixmap is Some <==> allocatable(width, height),
        pixmap is Some ==> pixmap_width(pixmap->0) == width && pixmap_height(pixmap->0) == height,
{
    Pixmap::new(width, height)
}

/// Calls `resvg::render`, which draws into the buffer and leaves its size
/// alone. The crate computes a box of five times the buffer's sides in
/// `i32`, hence the limit on the sides.
#[verifier::external_body]
fn render_tree(tree: &Tree, transform: Transform, pixmap: &mut Pixmap)
    requires
        0 < pixmap_width(*old(pixmap)) <= MAX_SURFACE_SIDE,
        0 < pixmap_height(*old(pixmap)) <= MAX_SURFACE_SIDE,
    ensures
        pixmap_width(*final(pixmap)) == pixmap_width(*old(pixmap)),
        pixmap_height(*final(pixmap)) == pixmap_height(*old(pixmap)),
{
    resvg::render(tree, transform, &mut pixmap.as_mut());
}

/// Calls `Pixmap::encode_png`; an encoder's error comes back as its text.
/// The answer depends on the buffer's size and bytes alone and is named
/// after them. The encoder writes the PNG signature before anything else, so
/// a file that it returns begins with it.
#[verifier::external_body]
fn encode_png(pixmap: &Pixmap) -> (encoded: Result<Vec<u8>, String>)
    ensures
        encoded_view(encoded) == png_file(
            pixmap_width(*pixmap),
            pixmap_height(*pixmap),
            pixmap_pixels(*pixmap),
        ),
        encoded is Ok ==> begins_as_png(encoded->Ok_0@),
{
    pixmap.encode_png().map_err(|e| e.to_string())
}

/// Turns the encoder's answer into the conversion's: a file is passed on, a
/// failure becomes an encoding error in the encoder's own words.
pub fn png_outcome(encoded: Result<Vec<u8>, String>) -> (r: Result<Vec<u8>, ConvertError>)
    ensures
        match encoded {
            Ok(bytes) => r == Ok::<Vec<u8>, ConvertError>(bytes),
            Err(text) => r == Err::<Vec<u8>, ConvertError>(ConvertError::Encoding(text)),
        },
{
    match encoded {
        Ok(bytes) => Ok(bytes),
        Err(text) => Err(ConvertError::Encoding(text)),
    }
}

/// Whether `r` is what a conversion returns for the image file `file`: the
/// file itself, or an encoding error that holds the encoder's description.
pub open spec fn is_png_outcome(
    r: Result<Vec<u8>, ConvertError>,
    file: Result<Seq<u8>, Seq<char>>,
) -> bool {
    match file {
        Ok(bytes) => r is Ok && r->Ok_0@ == bytes,
        Err(text) => r is Err && r->Err_0 is Encoding && r->Err_0->Encoding_0@ == text,
    }
}

/// Whether `r` is the outcome of encoding the buffer `drawn`, a buffer of
/// the given size.
pub open spec fn is_raster_of(
    r: Result<Vec<u8>, ConvertError>,
    drawn: Pixmap,
    width: u32,
    height: u32,
) -> bool {
    &&& pixmap_width(drawn) == width
    &&& pixmap_height(drawn) == height
    &&& is_png_outcome(r, png_file(width as int, height as int, pixmap_pixels(drawn)))
}

/// Decides whether a drawing can be rasterised at this size.
pub fn can_render(width: u32, height: u32) -> (ok: bool)
    ensures
        ok == renderable(width, height),
{
    if width == 0 || height == 0 || width > MAX_SURFACE_SIDE || height > MAX_SURFACE_SIDE {
        return false;
    }
    assert(4 * width * height <= 0x4000_0000_0000_0000) by (nonlinear_arith)
        requires
            0 < width <= 429_496_729,
            0 < height <= 429_496_729,
    ;
    let bytes: u128 = 4 * (width as u128) * (height as u128);
    bytes <= isize::MAX as u128
}

/// Draws a parsed drawing into a fresh buffer of the given size under the
/// given transform and encodes the buffer as a PNG file. A size at which no
/// buffer can be had or drawn into is refused before anything is allocated.
/// At every other size the result is the encoder's file for a buffer of
/// exactly that size, or the encoder's failure in its own words.
pub fn rasterize(tree: &Tree, transform: Transform, width: u32, height: u32) -> (r: Result<
    Vec<u8>,
    ConvertError,
>)
    ensures
        !renderable(width, height) ==> r == Err::<Vec<u8>, ConvertError>(ConvertError::Allocation),
        renderable(width, height) ==> exists|drawn: Pixmap| #[trigger]
            is_raster_of(r, drawn, width, height),
        r is Ok ==> begins_as_png(r->Ok_0@),
{
    if !can_render(width, height) {
        return Err(ConvertError::Allocation);
    }
    let mut pixmap = match new_pixmap(width, height) {
        Some(pixmap) => pixmap,
        None => {
            return Err(ConvertError::Allocation);
        },
    };
    render_tree(tree, transform, &mut pixmap);
    let encoded = encode_png(&pixmap);
    let ghost drawn = pixmap;
    let r = png_outcome(encoded);
    assert(is_raster_of(r, drawn, width, height));
    r
}

} // verus!
