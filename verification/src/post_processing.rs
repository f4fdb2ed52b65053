//! Overlay post-processing: decode the already-rendered base PNG, composite
//! a fetched overlay over it at the origin (resizing the overlay with
//! nearest-neighbour sampling when its size differs from the fixed output
//! size), and re-encode the result with an alpha channel.

use vstd::prelude::*;

use vstd::arithmetic::div_mod::{lemma_fundamental_div_mod, lemma_fundamental_div_mod_converse};

use crate::errors::ImagePostProcessingError;
use crate::image_params::{ImagePostProcessConfig, OverlayImageTypes, OUTPUT_HEIGHT, OUTPUT_WIDTH};
use crate::png_io::{encode_png_rgba, png_bytes, png_decoded_rgba, png_decodes, read_png_rgba};

verus! {

/// The four channel bytes of pixel `p` in a flat RGBA byte string.
pub open spec fn pixel4_at(d: Seq<u8>, p: int) -> (u8, u8, u8, u8) {
    (d[4 * p], d[4 * p + 1], d[4 * p + 2], d[4 * p + 3])
}

/// A raster with an alpha channel: four bytes per pixel, rows top to
/// bottom.
#[derive(Clone, Debug, PartialEq)]
pub struct RgbaRaster {
    /// Width in pixels.
    pub width: usize,
    /// Height in pixels.
    pub height: usize,
    /// Channel bytes, `4 * width * height` of them.
    pub data: Vec<u8>,
}

impl RgbaRaster {
    /// The byte buffer holds exactly one RGBA quadruple per pixel.
    pub open spec fn wf(self) -> bool {
        self.data@.len() == 4 * (self.width * self.height)
    }

    /// The raster as a sequence of RGBA quadruples, row-major.
    pub open spec fn spec_pixels(self) -> Seq<(u8, u8, u8, u8)> {
        Seq::new((self.width * self.height) as nat, |p: int| pixel4_at(self.data@, p))
    }
}

/// The flat byte string a pixel sequence stands for, four bytes per pixel.
pub open spec fn bytes_of_pixels4(px: Seq<(u8, u8, u8, u8)>) -> Seq<u8> {
    Seq::new(
        4 * px.len(),
        |i: int|
            {
                let t = px[i / 4];
                if i % 4 == 0 {
                    t.0
                } else if i % 4 == 1 {
                    t.1
                } else if i % 4 == 2 {
                    t.2
                } else {
                    t.3
                }
            },
    )
}

/// A well-formed RGBA raster's byte buffer is exactly the flattening of
/// its pixel sequence.
pub proof fn lemma_raster_bytes4(r: RgbaRaster)
    requires
        r.wf(),
    ensures
        r.data@ == bytes_of_pixels4(r.spec_pixels()),
{
    let d = r.data@;
    let px = r.spec_pixels();
    assert forall|i: int| 0 <= i < 4 * px.len() implies bytes_of_pixels4(px)[i] == d[i] by {
        let p = i / 4;
        lemma_fundamental_div_mod(i, 4);
        assert(4 * p <= i < 4 * px.len());
        assert(p < px.len());
        assert(px[p] == pixel4_at(d, p));
    }
    assert(d =~= bytes_of_pixels4(px));
}

/// Source-over blend of one channel: the overlay channel weighted by its
/// alpha out of 255, the base channel by the remainder, rounded to
/// nearest.
pub open spec fn spec_blend(tc: u8, bc: u8, a: u8) -> u8 {
    (((tc as int) * (a as int) + (bc as int) * (255 - a as int) + 127) / 255) as u8
}

/// Source-over of one overlay pixel on one base pixel; the base is treated
/// as fully opaque background, so the result's alpha is full.
pub open spec fn spec_over(t: (u8, u8, u8, u8), b: (u8, u8, u8, u8)) -> (u8, u8, u8, u8) {
    (spec_blend(t.0, b.0, t.3), spec_blend(t.1, b.1, t.3), spec_blend(t.2, b.2, t.3), 255u8)
}

/// Source-over of a whole overlay on a whole base of the same size.
pub open spec fn spec_composite(
    top: Seq<(u8, u8, u8, u8)>,
    base: Seq<(u8, u8, u8, u8)>,
) -> Seq<(u8, u8, u8, u8)> {
    Seq::new(base.len(), |p: int| spec_over(top[p], base[p]))
}

/// Nearest-neighbour resampling of a row-major pixel sequence from
/// `iw x ih` to `ow x oh`: output pixel `(x, y)` reads input pixel
/// `(x * iw / ow, y * ih / oh)`.
pub open spec fn spec_resize(
    px: Seq<(u8, u8, u8, u8)>,
    iw: int,
    ih: int,
    ow: int,
    oh: int,
) -> Seq<(u8, u8, u8, u8)> {
    Seq::new((ow * oh) as nat, |p: int| px[(p / ow * ih / oh) * iw + (p % ow) * iw / ow])
}

/// Executable twin of [`spec_blend`].
fn blend(tc: u8, bc: u8, a: u8) -> (r: u8)
    ensures
        r == spec_blend(tc, bc, a),
{
    proof {
        assert((tc as int) * (a as int) <= 255 * 255) by (nonlinear_arith)
            requires
                tc <= 255 && a <= 255,
        ;
        assert((bc as int) * (255 - a as int) <= 255 * 255) by (nonlinear_arith)
            requires
                bc <= 255 && 0 <= 255 - a as int <= 255,
        ;
        assert((tc as int) * (a as int) + (bc as int) * (255 - a as int) <= 255 * 255)
            by (nonlinear_arith)
            requires
                tc <= 255 && bc <= 255 && a <= 255,
        ;
    }
    let t: u32 = (tc as u32) * (a as u32) + (bc as u32) * (255 - a as u32) + 127;
    (t / 255) as u8
}

impl RgbaRaster {
    /// Composite `top` over `self` at the origin, alpha-aware, in place.
    pub fn composite_over(&mut self, top: &RgbaRaster)
        requires
            old(self).wf(),
            top.wf(),
            top.width == old(self).width,
            top.height == old(self).height,
        ensures
            final(self).wf(),
            final(self).width == old(self).width,
            final(self).height == old(self).height,
            final(self).spec_pixels() == spec_composite(top.spec_pixels(), old(self).spec_pixels()),
    {
        let total = self.data.len();
        proof {
            assert(self.width * self.height <= 4 * (self.width * self.height)) by (nonlinear_arith);
        }
        let npix = self.width * self.height;
        let mut p: usize = 0;
        while p < npix
            invariant
                self.width == old(self).width,
                self.height == old(self).height,
                top.wf(),
                top.width == self.width,
                top.height == self.height,
                self.data@.len() == total,
                total == old(self).data@.len(),
                old(self).wf(),
                4 * npix == total,
                npix == self.width * self.height,
                p <= npix,
                forall|q: int|
                    0 <= q < p ==> #[trigger] pixel4_at(self.data@, q) == spec_over(
                        pixel4_at(top.data@, q),
                        pixel4_at(old(self).data@, q),
                    ),
                forall|j: int| 4 * p <= j < total ==> self.data@[j] == old(self).data@[j],
            decreases npix - p,
        {
            let tr = top.data[4 * p];
            let tg = top.data[4 * p + 1];
            let tb = top.data[4 * p + 2];
            let ta = top.data[4 * p + 3];
            let br = self.data[4 * p];
            let bg = self.data[4 * p + 1];
            let bb = self.data[4 * p + 2];
            let ghost prev = self.data@;
            self.data[4 * p] = blend(tr, br, ta);
            self.data[4 * p + 1] = blend(tg, bg, ta);
            self.data[4 * p + 2] = blend(tb, bb, ta);
            self.data[4 * p + 3] = 255;
            proof {
                assert forall|q: int| 0 <= q < p + 1 implies #[trigger] pixel4_at(self.data@, q)
                    == spec_over(pixel4_at(top.data@, q), pixel4_at(old(self).data@, q)) by {
                    if q < p {
                        assert(pixel4_at(self.data@, q) == pixel4_at(prev, q));
                    } else {
                        assert(pixel4_at(old(self).data@, q) == (br, bg, bb, prev[4 * q + 3]));
                    }
                }
            }
            p = p + 1;
        }
        proof {
            assert(self.spec_pixels() =~= spec_composite(
                top.spec_pixels(),
                old(self).spec_pixels(),
            ));
        }
    }

    /// A copy of the raster resampled to `new_w x new_h` with
    /// nearest-neighbour sampling.  Any non-empty source size is accepted;
    /// the only bound is the machine's, on the output buffer.
    pub fn resize_nearest(&self, new_w: usize, new_h: usize) -> (out: RgbaRaster)
        requires
            self.wf(),
            1 <= self.width,
            1 <= self.height,
            4 * (new_w * new_h) <= usize::MAX,
        ensures
            out.wf(),
            out.width == new_w,
            out.height == new_h,
            out.spec_pixels() == spec_resize(
                self.spec_pixels(),
                self.width as int,
                self.height as int,
                new_w as int,
                new_h as int,
            ),
    {
        let iw = self.width;
        let ih = self.height;
        let total = self.data.len();
        let ghost target = spec_resize(
            self.spec_pixels(),
            iw as int,
            ih as int,
            new_w as int,
            new_h as int,
        );
        let mut data: Vec<u8> = Vec::new();
        let mut y: usize = 0;
        while y < new_h
            invariant
                self.wf(),
                1 <= iw,
                1 <= ih,
                iw == self.width,
                ih == self.height,
                total == self.data@.len(),
                4 * (iw * ih) == total,
                4 * (new_w * new_h) <= usize::MAX,
                y <= new_h,
                target == spec_resize(
                    self.spec_pixels(),
                    iw as int,
                    ih as int,
                    new_w as int,
                    new_h as int,
                ),
                data@.len() == 4 * (y * new_w),
                forall|j: int|
                    0 <= j < y * new_w ==> #[trigger] pixel4_at(data@, j) == target[j],
            decreases new_h - y,
        {
            proof {
                assert(y * new_w + new_w <= new_h * new_w) by (nonlinear_arith)
                    requires
                        0 <= y < new_h && 0 <= new_w,
                ;
                assert((y as int) * (ih as int)
                    <= 0xffff_ffff_ffff_ffff_ffff_ffff_ffff_ffff) by (nonlinear_arith)
                    requires
                        0 <= y <= 0xffff_ffff_ffff_ffff && 0 <= ih <= 0xffff_ffff_ffff_ffff,
                ;
                assert(y as int * ih as int / (new_h as int) < ih) by (nonlinear_arith)
                    requires
                        0 <= y < new_h && 1 <= ih && 1 <= new_h,
                ;
            }
            let syw: u128 = (y as u128) * (ih as u128) / (new_h as u128);
            let sy = syw as usize;
            let mut x: usize = 0;
            while x < new_w
                invariant
                    self.wf(),
                    1 <= iw,
                    1 <= ih,
                    iw == self.width,
                    ih == self.height,
                    total == self.data@.len(),
                    4 * (iw * ih) == total,
                    4 * (new_w * new_h) <= usize::MAX,
                    y < new_h,
                    x <= new_w,
                    sy as int == y as int * ih as int / (new_h as int),
                    sy < ih,
                    y * new_w + new_w <= new_h * new_w,
                    target == spec_resize(
                        self.spec_pixels(),
                        iw as int,
                        ih as int,
                        new_w as int,
                        new_h as int,
                    ),
                    data@.len() == 4 * (y * new_w + x),
                    forall|j: int|
                        0 <= j < y * new_w + x ==> #[trigger] pixel4_at(data@, j) == target[j],
                decreases new_w - x,
            {
                proof {
                    assert((x as int) * (iw as int)
                        <= 0xffff_ffff_ffff_ffff_ffff_ffff_ffff_ffff) by (nonlinear_arith)
                        requires
                            0 <= x <= 0xffff_ffff_ffff_ffff && 0 <= iw <= 0xffff_ffff_ffff_ffff,
                    ;
                    assert(x as int * iw as int / (new_w as int) < iw) by (nonlinear_arith)
                        requires
                            0 <= x < new_w && 1 <= iw && 1 <= new_w,
                    ;
                }
                let sxw: u128 = (x as u128) * (iw as u128) / (new_w as u128);
                let sx = sxw as usize;
                proof {
                    assert(sy * iw + sx < iw * ih) by (nonlinear_arith)
                        requires
                            0 <= sy < ih && 0 <= sx < iw,
                    ;
                    assert(4 * (iw * ih) == self.data@.len());
                }
                let sp = sy * iw + sx;
                let ghost prev = data@;
                data.push(self.data[4 * sp]);
                data.push(self.data[4 * sp + 1]);
                data.push(self.data[4 * sp + 2]);
                data.push(self.data[4 * sp + 3]);
                proof {
                    let j0 = y * new_w + x;
                    lemma_fundamental_div_mod_converse(
                        j0 as int,
                        new_w as int,
                        y as int,
                        x as int,
                    );
                    assert(j0 < (new_w * new_h)) by (nonlinear_arith)
                        requires
                            j0 == y * new_w + x && 0 <= x < new_w && 0 <= y < new_h,
                    ;
                    assert(target[j0 as int] == self.spec_pixels()[sp as int]);
                    assert(self.spec_pixels()[sp as int] == pixel4_at(self.data@, sp as int));
                    assert(pixel4_at(data@, j0 as int) == pixel4_at(self.data@, sp as int));
                    assert forall|j: int| 0 <= j < j0 + 1 implies #[trigger] pixel4_at(data@, j)
                        == target[j] by {
                        if j < j0 {
                            assert(pixel4_at(data@, j) == pixel4_at(prev, j));
                        }
                    }
                }
                x = x + 1;
            }
            proof {
                assert(y * new_w + new_w == (y + 1) * new_w) by (nonlinear_arith);
            }
            y = y + 1;
        }
        let out = RgbaRaster { width: new_w, height: new_h, data };
        proof {
            assert(new_h * new_w == new_w * new_h) by (nonlinear_arith);
            assert(out.spec_pixels() =~= target);
        }
        out
    }
}

/// Overlaying a fully opaque overlay leaves exactly the overlay's pixels:
/// compositing replaces the base pixel for pixel.
pub proof fn lemma_opaque_overlay_replaces(
    top: Seq<(u8, u8, u8, u8)>,
    base: Seq<(u8, u8, u8, u8)>,
)
    requires
        top.len() == base.len(),
        forall|p: int| 0 <= p < top.len() ==> (#[trigger] top[p]).3 == 255,
    ensures
        spec_composite(top, base) == top,
{
    assert forall|p: int| 0 <= p < base.len() implies spec_composite(top, base)[p] == top[p] by {
        let t = top[p];
        let b = base[p];
        lemma_fundamental_div_mod_converse(
            (t.0 as int) * 255 + (b.0 as int) * 0 + 127,
            255,
            t.0 as int,
            127,
        );
        lemma_fundamental_div_mod_converse(
            (t.1 as int) * 255 + (b.1 as int) * 0 + 127,
            255,
            t.1 as int,
            127,
        );
        lemma_fundamental_div_mod_converse(
            (t.2 as int) * 255 + (b.2 as int) * 0 + 127,
            255,
            t.2 as int,
            127,
        );
        assert(spec_over(t, b) == (t.0, t.1, t.2, 255u8));
    }
    assert(spec_composite(top, base) =~= top);
}

/// The overlay pixels actually composited: the overlay itself at the fixed
/// output size, its nearest-neighbour resampling otherwise.
pub open spec fn spec_overlay_top(top: RgbaRaster) -> Seq<(u8, u8, u8, u8)> {
    if top.width == OUTPUT_WIDTH && top.height == OUTPUT_HEIGHT {
        top.spec_pixels()
    } else {
        spec_resize(
            top.spec_pixels(),
            top.width as int,
            top.height as int,
            OUTPUT_WIDTH as int,
            OUTPUT_HEIGHT as int,
        )
    }
}

/// Composite an overlay onto the fixed-size base, resizing the overlay
/// first when its dimensions differ from the fixed output size.  The base
/// keeps the fixed output size whatever the overlay's input size was.
pub fn process_overlay(base: &mut RgbaRaster, top: &RgbaRaster)
    requires
        old(base).wf(),
        top.wf(),
        old(base).width == OUTPUT_WIDTH,
        old(base).height == OUTPUT_HEIGHT,
        1 <= top.width,
        1 <= top.height,
    ensures
        final(base).wf(),
        final(base).width == OUTPUT_WIDTH,
        final(base).height == OUTPUT_HEIGHT,
        final(base).spec_pixels() == spec_composite(
            spec_overlay_top(*top),
            old(base).spec_pixels(),
        ),
{
    if top.width == OUTPUT_WIDTH && top.height == OUTPUT_HEIGHT {
        base.composite_over(top);
    } else {
        let resized = top.resize_nearest(OUTPUT_WIDTH, OUTPUT_HEIGHT);
        base.composite_over(&resized);
    }
}

/// Decode a PNG byte buffer into an RGBA raster; `name` only labels the
/// error message.
pub fn load_img_from_buffer(name: &str, buf: &[u8]) -> (r: Result<
    RgbaRaster,
    ImagePostProcessingError,
>)
    ensures
        r is Ok <==> png_decodes(buf@),
        match r {
            Ok(t) => {
                &&& t.wf()
                &&& (t.width as int, t.height as int, t.data@) == png_decoded_rgba(buf@)
                &&& 1 <= t.width
                &&& 1 <= t.height
            },
            Err(e) => e.spec_message() == "failed to load image "@ + name@ + " from buffer"@,
        },
{
    match read_png_rgba(buf) {
        Some((w, h, data)) => {
            let raster = RgbaRaster { width: w as usize, height: h as usize, data };
            proof {
                assert(raster.wf()) by {
                    assert(raster.data@.len() == 4 * ((w as int) * (h as int)));
                }
            }
            Ok(raster)
        },
        None => Err(
            ImagePostProcessingError::Default {
                message: "failed to load image ".to_owned().concat(name).concat(" from buffer"),
            },
        ),
    }
}

/// Re-encode a flat RGBA buffer of the fixed output size as the final PNG.
/// Any other buffer length is an internal fault, reported, never a panic.
/// The stream is lossless: it decodes back to exactly the given buffer.
pub fn encode_result_png(buf: &[u8]) -> (r: Result<Vec<u8>, ImagePostProcessingError>)
    ensures
        match r {
            Ok(v) => {
                &&& buf@.len() == 4 * (OUTPUT_WIDTH * OUTPUT_HEIGHT)
                &&& v@ == png_bytes(buf@, OUTPUT_WIDTH as int, OUTPUT_HEIGHT as int, 4)
                &&& png_decodes(v@)
                &&& png_decoded_rgba(v@) == (OUTPUT_WIDTH as int, OUTPUT_HEIGHT as int, buf@)
            },
            Err(e) => {
                &&& buf@.len() != 4 * (OUTPUT_WIDTH * OUTPUT_HEIGHT)
                &&& e.spec_message() == "result buffer does not match the output size"@
            },
        },
{
    if buf.len() == 4 * OUTPUT_WIDTH * OUTPUT_HEIGHT {
        Ok(encode_png_rgba(buf, OUTPUT_WIDTH as u32, OUTPUT_HEIGHT as u32))
    } else {
        Err(
            ImagePostProcessingError::Default {
                message: "result buffer does not match the output size".to_owned(),
            },
        )
    }
}

/// The pixels of the post-processed image: the decoded base, with the
/// decoded (and, if need be, resampled) overlay composited over it when
/// the configuration selects one.
pub open spec fn spec_post_pixels(
    cfg: ImagePostProcessConfig,
    image: Seq<u8>,
    overlay: Seq<u8>,
) -> Seq<(u8, u8, u8, u8)> {
    let dec = png_decoded_rgba(image);
    let base = Seq::new((dec.0 * dec.1) as nat, |p: int| pixel4_at(dec.2, p));
    match cfg.overlay_image_type {
        Option::None => base,
        Option::Some(OverlayImageTypes::Profile { .. }) => {
            let od = png_decoded_rgba(overlay);
            let top = Seq::new((od.0 * od.1) as nat, |p: int| pixel4_at(od.2, p));
            let top_eff = if od.0 == OUTPUT_WIDTH && od.1 == OUTPUT_HEIGHT {
                top
            } else {
                spec_resize(top, od.0, od.1, OUTPUT_WIDTH as int, OUTPUT_HEIGHT as int)
            };
            spec_composite(top_eff, base)
        },
    }
}

/// Run the whole post-processing step: decode the base PNG, composite the
/// fetched overlay when one is configured, and re-encode with alpha.
///
/// It succeeds exactly when the base decodes at the fixed output size and,
/// if an overlay is configured, the overlay decodes too; the output is then
/// the PNG of [`spec_post_pixels`] at the fixed output size.  Every failure
/// — malformed base or overlay bytes, a base of another size — is reported
/// as a post-processing error, never a panic.
pub fn process_from_params(
    q_params: &ImagePostProcessConfig,
    image: &[u8],
    overlay_buf: &[u8],
) -> (r: Result<Vec<u8>, ImagePostProcessingError>)
    ensures
        r is Ok <==> ({
            &&& png_decodes(image@)
            &&& png_decoded_rgba(image@).0 == OUTPUT_WIDTH
            &&& png_decoded_rgba(image@).1 == OUTPUT_HEIGHT
            &&& (q_params.overlay_image_type is Some ==> png_decodes(overlay_buf@))
        }),
        r matches Ok(v) ==> v@ == png_bytes(
            bytes_of_pixels4(spec_post_pixels(*q_params, image@, overlay_buf@)),
            OUTPUT_WIDTH as int,
            OUTPUT_HEIGHT as int,
            4,
        ),
{
    let mut base = match load_img_from_buffer("base image", image) {
        Ok(b) => b,
        Err(e) => {
            return Err(e);
        },
    };
    if base.width != OUTPUT_WIDTH || base.height != OUTPUT_HEIGHT {
        return Err(
            ImagePostProcessingError::Default {
                message: "base image does not match the output size".to_owned(),
            },
        );
    }
    let ghost base0 = base.spec_pixels();
    match q_params.overlay_image_type {
        Some(OverlayImageTypes::Profile { .. }) => {
            let top = match load_img_from_buffer("profile_overlay", overlay_buf) {
                Ok(t) => t,
                Err(e) => {
                    return Err(e);
                },
            };
            process_overlay(&mut base, &top);
            proof {
                assert(base.spec_pixels() =~= spec_post_pixels(
                    *q_params,
                    image@,
                    overlay_buf@,
                ));
            }
        },
        None => {
            proof {
                assert(base.spec_pixels() =~= spec_post_pixels(
                    *q_params,
                    image@,
                    overlay_buf@,
                ));
            }
        },
    }
    proof {
        lemma_raster_bytes4(base);
    }
    encode_result_png(base.data.as_slice())
}

} // verus!
