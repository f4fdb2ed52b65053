//! The PNG boundary: the one place pixel buffers leave for, or arrive from,
//! the `image` crate's PNG codec.  Both directions are deterministic
//! functions of their byte arguments — whether a stream decodes at all, and
//! what it decodes to — so their results carry names that the rest of the
//! library's contracts compose with.

use vstd::prelude::*;

use image::codecs::png::PngEncoder;
use image::ColorType;
use image::ImageEncoder;
use image::ImageFormat;

verus! {

/// The PNG stream that the `image` crate's PNG encoder produces for a flat
/// pixel buffer with the given dimensions and channel count (3 for RGB,
/// 4 for RGBA).
pub uninterp spec fn png_bytes(pix: Seq<u8>, width: int, height: int, channels: int) -> Seq<u8>;

/// Whether the `image` crate's PNG decoder accepts a byte stream at all;
/// like the decoded value, this depends on the bytes alone.
pub uninterp spec fn png_decodes(bytes: Seq<u8>) -> bool;

/// The width, height and flat RGBA bytes that the `image` crate's PNG
/// decoder reads out of a PNG stream.
pub uninterp spec fn png_decoded_rgba(bytes: Seq<u8>) -> (int, int, Seq<u8>);

/// The RGBA bytes a flat RGB buffer reads back as: every pixel keeps its
/// three channels and gains a fully opaque alpha.
pub open spec fn rgba_of_rgb(d: Seq<u8>) -> Seq<u8> {
    Seq::new(
        4 * (d.len() / 3),
        |i: int|
            if i % 4 == 3 {
                255u8
            } else {
                d[(i / 4) * 3 + (i % 4)]
            },
    )
}

/// Relies on `image::codecs::png::PngEncoder::write_image`: a deterministic
/// encoder that panics on a buffer/dimension mismatch (excluded here by
/// `requires`), errors only on zero or overflowing dimensions, and otherwise
/// writes one PNG stream determined by buffer, dimensions and colour type.
/// PNG is lossless for these colour types, so the stream decodes again, to
/// the same pixels; an RGB buffer reads back as RGBA with opaque alpha.
#[verifier::external_body]
pub(crate) fn write_png(buf: &[u8], width: u32, height: u32, rgba: bool) -> (r: Option<Vec<u8>>)
    requires
        buf@.len() == width * height * (if rgba { 4int } else { 3int }),
        1 <= width <= 10000,
        1 <= height <= 10000,
    ensures
        r is Some,
        r matches Some(v) ==> v@ == png_bytes(
            buf@,
            width as int,
            height as int,
            if rgba { 4int } else { 3int },
        ),
        r matches Some(v) ==> png_decodes(v@),
        r matches Some(v) ==> png_decoded_rgba(v@) == (
            width as int,
            height as int,
            (if rgba {
                buf@
            } else {
                rgba_of_rgb(buf@)
            }),
        ),
{
    let color = if rgba { ColorType::Rgba8 } else { ColorType::Rgb8 };
    let mut out: Vec<u8> = Vec::new();
    let encoder = PngEncoder::new(&mut out);
    match encoder.write_image(buf, width, height, color) {
        Ok(()) => Some(out),
        Err(_) => None,
    }
}

/// Relies on `image::load_from_memory_with_format` with the PNG format,
/// followed by `DynamicImage::to_rgba8`: whether decoding succeeds, and
/// what it yields, are deterministic functions of the input bytes; the
/// flat buffer holds four bytes per pixel, and the decoder rejects zero
/// dimensions outright.
#[verifier::external_body]
pub(crate) fn read_png_rgba(buf: &[u8]) -> (r: Option<(u32, u32, Vec<u8>)>)
    ensures
        r is Some <==> png_decodes(buf@),
        r matches Some(t) ==> {
            &&& (t.0 as int, t.1 as int, t.2@) == png_decoded_rgba(buf@)
            &&& t.2@.len() == 4 * (t.0 as int * t.1 as int)
            &&& t.0 >= 1
            &&& t.1 >= 1
        },
{
    let img = image::load_from_memory_with_format(buf, ImageFormat::Png).ok()?;
    let rgba = img.to_rgba8();
    let (w, h) = rgba.dimensions();
    Some((w, h, rgba.into_raw()))
}

/// Encode a flat RGB buffer as a PNG stream.
pub(crate) fn encode_png_rgb(buf: &[u8], width: u32, height: u32) -> (r: Vec<u8>)
    requires
        buf@.len() == width * height * 3,
        1 <= width <= 10000,
        1 <= height <= 10000,
    ensures
        r@ == png_bytes(buf@, width as int, height as int, 3),
        png_decodes(r@),
        png_decoded_rgba(r@) == (width as int, height as int, rgba_of_rgb(buf@)),
{
    match write_png(buf, width, height, false) {
        Some(v) => v,
        None => {
            proof {
                assert(false);
            }
            Vec::new()
        },
    }
}

/// Encode a flat RGBA buffer as a PNG stream.
pub(crate) fn encode_png_rgba(buf: &[u8], width: u32, height: u32) -> (r: Vec<u8>)
    requires
        buf@.len() == width * height * 4,
        1 <= width <= 10000,
        1 <= height <= 10000,
    ensures
        r@ == png_bytes(buf@, width as int, height as int, 4),
        png_decodes(r@),
        png_decoded_rgba(r@) == (width as int, height as int, buf@),
{
    match write_png(buf, width, height, true) {
        Some(v) => v,
        None => {
            proof {
                assert(false);
            }
            Vec::new()
        },
    }
}

} // verus!
