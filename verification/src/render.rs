//! Colouring of escape-time counts and assembly of the finished PNG.
//!
//! The escape-time iteration itself runs on IEEE 754 doubles outside this
//! library; this module turns its per-pixel counts into colours, applies the
//! descriptor's transforms and encodes the result, all pinned down exactly.

use vstd::prelude::*;

use crate::ieee754::{
    add_bits, gt_bits, mul_bits, spec_add, spec_gt, spec_mul, spec_sub, sub_bits,
};
use crate::image_params::{Complex64, ImageParams, OUTPUT_HEIGHT, OUTPUT_WIDTH};
use crate::png_io::{encode_png_rgb, png_bytes, png_decoded_rgba, png_decodes, rgba_of_rgb};
use crate::transforms::{
    bytes_of_pixels, lemma_raster_bytes, pixel_at, spec_apply_flags, RgbRaster,
};

verus! {

/// Bit pattern of 4.0: the squared escape radius of the iteration.
pub const FOUR_BITS: u64 = 0x4010_0000_0000_0000;

/// Iteration limit of the escape-time loop.
pub const ESCAPE_LIMIT: usize = 255;

/// One orbit step `z * z + c`, componentwise over bit patterns, with the
/// products and sums ordered as complex multiplication computes them.
pub open spec fn spec_step(z: Complex64, c: Complex64) -> Complex64 {
    let re = spec_add(spec_sub(spec_mul(z.re, z.re), spec_mul(z.im, z.im)), c.re);
    let im = spec_add(spec_add(spec_mul(z.re, z.im), spec_mul(z.im, z.re)), c.im);
    Complex64 { re, im }
}

/// The squared magnitude `re * re + im * im` over bit patterns.
pub open spec fn spec_norm_sqr(z: Complex64) -> u64 {
    spec_add(spec_mul(z.re, z.re), spec_mul(z.im, z.im))
}

/// Escape time of the orbit starting at `z`: the number of further
/// iterations until the squared magnitude strictly exceeds four, or
/// nothing if the fuel runs out first.
pub open spec fn spec_escape_steps(z: Complex64, c: Complex64, fuel: nat) -> Option<nat>
    decreases fuel,
{
    if fuel == 0 {
        Option::None
    } else if spec_gt(spec_norm_sqr(z), FOUR_BITS) {
        Option::Some(0nat)
    } else {
        match spec_escape_steps(spec_step(z, c), c, (fuel - 1) as nat) {
            Option::Some(k) => Option::Some((k + 1) as nat),
            Option::None => Option::None,
        }
    }
}

/// Escape time of `c` from the zero start, exactly as the iteration
/// computes it on binary64 bit patterns.
pub open spec fn spec_escape_time(c: Complex64, limit: nat) -> Option<nat> {
    spec_escape_steps(Complex64 { re: 0, im: 0 }, c, limit)
}

/// The bit patterns every operation on two zero patterns produces: the
/// zero orbit stays exactly at zero and never exceeds the radius.
proof fn lemma_zero_orbit()
    ensures
        spec_step(Complex64 { re: 0, im: 0 }, Complex64 { re: 0, im: 0 }) == (Complex64 {
            re: 0u64,
            im: 0u64,
        }),
        !spec_gt(spec_norm_sqr(Complex64 { re: 0, im: 0 }), FOUR_BITS),
{
    assert((0u64 >> 52) & 0x7ff == 0 && 0u64 & 0xf_ffff_ffff_ffff == 0 && 0u64 >> 63 == 0 && (0u64
        ^ 0x8000_0000_0000_0000u64) == 0x8000_0000_0000_0000u64 && (0x8000_0000_0000_0000u64 >> 52)
        & 0x7ff == 0 && 0x8000_0000_0000_0000u64 & 0xf_ffff_ffff_ffff == 0
        && 0x8000_0000_0000_0000u64 >> 63 == 1 && (0u64 & 1u64) == 0 && (0u64 & 0u64) == 0 && (0u64 ^ 0u64) == 0 && 0u64
        << 63 == 0 && (0x4010_0000_0000_0000u64 >> 52) & 0x7ff == 0x401
        && 0x4010_0000_0000_0000u64 & 0x7fff_ffff_ffff_ffff == 0x4010_0000_0000_0000u64 && 0u64
        & 0x7fff_ffff_ffff_ffff == 0 && (0x4010_0000_0000_0000u64 >> 63) == 0) by (bit_vector);
    assert(spec_mul(0, 0) == 0u64);
    assert(spec_sub(0, 0) == 0u64);
    assert(spec_add(0, 0) == 0u64);
}

/// The origin is in the set: for every limit the zero orbit runs out of
/// fuel without ever escaping.
pub proof fn lemma_origin_unbounded(limit: nat)
    ensures
        spec_escape_time(Complex64 { re: 0, im: 0 }, limit) is None,
    decreases limit,
{
    let z0 = Complex64 { re: 0u64, im: 0u64 };
    lemma_zero_orbit();
    if limit > 0 {
        lemma_origin_unbounded((limit - 1) as nat);
    }
}

/// No input escapes at iteration zero: the orbit starts at zero, whose
/// squared magnitude is not strictly greater than four, so the strict
/// boundary check fails on the first iteration for every `c`.
pub proof fn lemma_no_immediate_escape(c: Complex64, limit: nat)
    ensures
        spec_escape_time(c, limit) != Option::Some(0nat),
{
    lemma_zero_orbit();
}

/// Run the escape-time iteration for `c` on binary64 bit patterns: the
/// index at which the orbit of zero under `z * z + c` first has squared
/// magnitude strictly greater than four, or nothing if `limit` iterations
/// never escape.
pub fn escape_time(c: Complex64, limit: usize) -> (r: Option<usize>)
    ensures
        r matches Some(i) ==> spec_escape_time(c, limit as nat) == Option::Some(i as nat) && i
            < limit,
        r is None ==> spec_escape_time(c, limit as nat) is None,
{
    let mut z = Complex64 { re: 0, im: 0 };
    let mut i: usize = 0;
    while i < limit
        invariant
            i <= limit,
            spec_escape_time(c, limit as nat) == (match spec_escape_steps(
                z,
                c,
                (limit - i) as nat,
            ) {
                Option::Some(k) => Option::Some((k + i) as nat),
                Option::None => Option::None,
            }),
        decreases limit - i,
    {
        let zr2 = mul_bits(z.re, z.re);
        let zi2 = mul_bits(z.im, z.im);
        let norm = add_bits(zr2, zi2);
        if gt_bits(norm, FOUR_BITS) {
            return Some(i);
        }
        let re_new = add_bits(sub_bits(zr2, zi2), c.re);
        let im_new = add_bits(add_bits(mul_bits(z.re, z.im), mul_bits(z.im, z.re)), c.im);
        z = Complex64 { re: re_new, im: im_new };
        i = i + 1;
    }
    None
}

/// The escape count of every point, clamped into a byte by the fixed
/// iteration limit.
pub open spec fn spec_counts(points: Seq<Complex64>) -> Seq<Option<u8>> {
    points.map_values(
        |pt: Complex64|
            match spec_escape_time(pt, ESCAPE_LIMIT as nat) {
                Option::Some(k) => Option::Some(k as u8),
                Option::None => Option::None,
            },
    )
}

/// Compute the escape count of every sample point at the fixed iteration
/// limit.
pub fn render_counts(points: &Vec<Complex64>) -> (r: Vec<Option<u8>>)
    ensures
        r@ == spec_counts(points@),
{
    let n = points.len();
    let mut out: Vec<Option<u8>> = Vec::new();
    let mut j: usize = 0;
    while j < n
        invariant
            j <= n,
            n == points@.len(),
            out@.len() == j,
            forall|q: int| 0 <= q < j ==> out@[q] == spec_counts(points@)[q],
        decreases n - j,
    {
        let count = match escape_time(points[j], ESCAPE_LIMIT) {
            Some(i) => Some(i as u8),
            None => None,
        };
        out.push(count);
        j = j + 1;
    }
    proof {
        assert(out@ =~= spec_counts(points@));
    }
    out
}

/// Render the finished PNG for a descriptor from the complex-plane sample
/// points of its raster, row-major: escape times, colours, transforms,
/// encoding.  The bytes are a function of the descriptor and the points
/// alone, so two invocations on the same inputs are byte-identical; and
/// they decode back to exactly the rendered pixels, with opaque alpha.
pub fn create_png(img_params: &ImageParams, points: &Vec<Complex64>) -> (r: Vec<u8>)
    requires
        points@.len() == OUTPUT_WIDTH * OUTPUT_HEIGHT,
    ensures
        r@ == png_bytes(
            bytes_of_pixels(spec_rendered_pixels(*img_params, spec_counts(points@))),
            OUTPUT_WIDTH as int,
            OUTPUT_HEIGHT as int,
            3,
        ),
        png_decodes(r@),
        png_decoded_rgba(r@) == (
            OUTPUT_WIDTH as int,
            OUTPUT_HEIGHT as int,
            rgba_of_rgb(bytes_of_pixels(spec_rendered_pixels(*img_params, spec_counts(points@)))),
        ),
{
    let counts = render_counts(points);
    render_png(img_params, &counts)
}

/// The colouring rule: a point that never escaped gets the fixed dark
/// background; one that escaped after `n` iterations gets each colour
/// constant reduced modulo `n`.  An immediate escape (`n == 0`) is treated
/// as `n == 1`, so the pixel is black rather than a remainder by zero.
pub open spec fn spec_color(count: Option<u8>, rgb: (u8, u8, u8)) -> (u8, u8, u8) {
    match count {
        Option::None => (10u8, 10u8, 25u8),
        Option::Some(n) => if n == 0 {
            (0u8, 0u8, 0u8)
        } else {
            ((rgb.0 % n) as u8, (rgb.1 % n) as u8, (rgb.2 % n) as u8)
        },
    }
}

/// Executable twin of [`spec_color`].
pub fn color_for_count(count: Option<u8>, rgb: (u8, u8, u8)) -> (c: (u8, u8, u8))
    ensures
        c == spec_color(count, rgb),
{
    match count {
        None => (10, 10, 25),
        Some(n) => {
            if n == 0 {
                (0, 0, 0)
            } else {
                (rgb.0 % n, rgb.1 % n, rgb.2 % n)
            }
        },
    }
}

/// Colour every pixel of a raster from its escape count.
pub fn colorize(counts: &Vec<Option<u8>>, width: usize, height: usize, rgb: (u8, u8, u8)) -> (r:
    RgbRaster)
    requires
        counts@.len() == width * height,
        3 * (width * height) <= usize::MAX,
    ensures
        r.wf(),
        r.width == width,
        r.height == height,
        r.spec_pixels() == counts@.map_values(|c: Option<u8>| spec_color(c, rgb)),
{
    let n = counts.len();
    let mut data: Vec<u8> = Vec::new();
    let mut i: usize = 0;
    while i < n
        invariant
            i <= n,
            n == counts@.len(),
            n == width * height,
            3 * (width * height) <= usize::MAX,
            data@.len() == 3 * i,
            forall|q: int|
                0 <= q < i ==> #[trigger] pixel_at(data@, q) == spec_color(counts@[q], rgb),
        decreases n - i,
    {
        let c = color_for_count(counts[i], rgb);
        let ghost prev = data@;
        data.push(c.0);
        data.push(c.1);
        data.push(c.2);
        proof {
            assert forall|q: int| 0 <= q < i + 1 implies #[trigger] pixel_at(data@, q)
                == spec_color(counts@[q], rgb) by {
                if q < i {
                    assert(pixel_at(data@, q) == pixel_at(prev, q));
                }
            }
        }
        i = i + 1;
    }
    let r = RgbRaster { width, height, data };
    proof {
        assert(r.spec_pixels() =~= counts@.map_values(|c: Option<u8>| spec_color(c, rgb)));
    }
    r
}

/// The pixel sequence of the finished image for a descriptor and its
/// per-pixel escape counts: colours first, then the flagged transforms.
pub open spec fn spec_rendered_pixels(p: ImageParams, counts: Seq<Option<u8>>) -> Seq<
    (u8, u8, u8),
> {
    spec_apply_flags(
        counts.map_values(|c: Option<u8>| spec_color(c, p.rgb_consts)),
        p.transform_flags,
    )
}

/// Build the finished PNG for a descriptor from the per-pixel escape
/// counts of the fixed-size raster, row-major: colour, transform, encode.
///
/// The byte stream is a function of the descriptor and counts alone, so two
/// invocations on the same inputs are byte-identical; and it decodes back
/// to exactly the rendered pixels, with opaque alpha.
pub fn render_png(img_params: &ImageParams, counts: &Vec<Option<u8>>) -> (r: Vec<u8>)
    requires
        counts@.len() == OUTPUT_WIDTH * OUTPUT_HEIGHT,
    ensures
        r@ == png_bytes(
            bytes_of_pixels(spec_rendered_pixels(*img_params, counts@)),
            OUTPUT_WIDTH as int,
            OUTPUT_HEIGHT as int,
            3,
        ),
        png_decodes(r@),
        png_decoded_rgba(r@) == (
            OUTPUT_WIDTH as int,
            OUTPUT_HEIGHT as int,
            rgba_of_rgb(bytes_of_pixels(spec_rendered_pixels(*img_params, counts@))),
        ),
{
    let mut raster = colorize(counts, OUTPUT_WIDTH, OUTPUT_HEIGHT, img_params.rgb_consts);
    raster.apply_transforms(img_params.transform_flags);
    proof {
        lemma_raster_bytes(raster);
    }
    encode_png_rgb(raster.data.as_slice(), OUTPUT_WIDTH as u32, OUTPUT_HEIGHT as u32)
}

} // verus!
