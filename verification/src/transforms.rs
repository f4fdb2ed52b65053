//! Whole-image transforms applied after rendering, in a fixed order:
//! 180-degree rotation, then 90-degree hue rotation, then colour inversion,
//! each only when its flag is set.
//!
//! The hue rotation uses the common luma-preserving linear matrix at ninety
//! degrees, carried out in integer thousandths with round-to-nearest and
//! clamping, so the result is exactly reproducible on every platform.

use vstd::prelude::*;

use vstd::arithmetic::div_mod::lemma_fundamental_div_mod;

use crate::image_params::{ImageTransformFlags, TransformFlags};

verus! {

/// The three channel bytes of pixel `p` in a flat RGB byte string.
pub open spec fn pixel_at(d: Seq<u8>, p: int) -> (u8, u8, u8) {
    (d[3 * p], d[3 * p + 1], d[3 * p + 2])
}

/// A rendered raster: three bytes per pixel, rows top to bottom.
#[derive(Clone, Debug, PartialEq)]
pub struct RgbRaster {
    /// Width in pixels.
    pub width: usize,
    /// Height in pixels.
    pub height: usize,
    /// Channel bytes, `3 * width * height` of them.
    pub data: Vec<u8>,
}

impl RgbRaster {
    /// The byte buffer holds exactly one RGB triple per pixel.
    pub open spec fn wf(self) -> bool {
        self.data@.len() == 3 * (self.width * self.height)
    }

    /// The raster as a sequence of RGB triples, row-major.
    pub open spec fn spec_pixels(self) -> Seq<(u8, u8, u8)> {
        Seq::new((self.width * self.height) as nat, |p: int| pixel_at(self.data@, p))
    }
}

/// Colour inversion of one pixel.
pub open spec fn spec_invert_pixel(px: (u8, u8, u8)) -> (u8, u8, u8) {
    ((255 - px.0) as u8, (255 - px.1) as u8, (255 - px.2) as u8)
}

/// Clamp a channel value given in thousandths to a byte, rounding to
/// nearest.
pub open spec fn spec_hue_clamp(t: int) -> u8 {
    if t < 0 {
        0u8
    } else if t > 255000 {
        255u8
    } else {
        ((t + 500) / 1000) as u8
    }
}

/// Ninety-degree hue rotation of one pixel: the linear hue-rotation matrix
/// at ninety degrees, in integer thousandths.
pub open spec fn spec_hue_pixel(px: (u8, u8, u8)) -> (u8, u8, u8) {
    let r = px.0 as int;
    let g = px.1 as int;
    let b = px.2 as int;
    (px.2, spec_hue_clamp(356 * r + 855 * g - 211 * b), spec_hue_clamp(
        -574 * r + 1430 * g + 144 * b,
    ))
}

/// What the whole transform stage does to the pixel sequence for a given
/// flag set, in the fixed application order.
pub open spec fn spec_apply_flags(px: Seq<(u8, u8, u8)>, f: TransformFlags) -> Seq<(u8, u8, u8)> {
    let a = if f.spec_contains(ImageTransformFlags::ROT180) {
        px.reverse()
    } else {
        px
    };
    let b = if f.spec_contains(ImageTransformFlags::HUEROT90) {
        a.map_values(|q: (u8, u8, u8)| spec_hue_pixel(q))
    } else {
        a
    };
    if f.spec_contains(ImageTransformFlags::INVERT) {
        b.map_values(|q: (u8, u8, u8)| spec_invert_pixel(q))
    } else {
        b
    }
}

/// Round-to-nearest clamp of a thousandths channel value, as
/// [`spec_hue_clamp`] states.
fn hue_clamp(t: i32) -> (r: u8)
    requires
        -1000000 <= t <= 1000000,
    ensures
        r == spec_hue_clamp(t as int),
{
    if t < 0 {
        0
    } else if t > 255000 {
        255
    } else {
        ((t + 500) / 1000) as u8
    }
}

impl RgbRaster {
    /// Rotate the raster by 180 degrees: the pixel order is exactly
    /// reversed.
    pub fn rotate180(&mut self)
        requires
            old(self).wf(),
        ensures
            final(self).wf(),
            final(self).width == old(self).width,
            final(self).height == old(self).height,
            final(self).spec_pixels() == old(self).spec_pixels().reverse(),
    {
        let total = self.data.len();
        proof {
            assert(self.width * self.height <= 3 * (self.width * self.height)) by (nonlinear_arith);
        }
        let npix = self.width * self.height;
        let mut out: Vec<u8> = Vec::new();
        let mut p: usize = 0;
        while p < npix
            invariant
                *self == *old(self),
                self.wf(),
                total == self.data@.len(),
                npix == self.width * self.height,
                3 * npix == total,
                p <= npix,
                out@.len() == 3 * p,
                forall|q: int|
                    0 <= q < p ==> #[trigger] pixel_at(out@, q) == old(self).spec_pixels()[npix - 1
                        - q],
            decreases npix - p,
        {
            let q = npix - 1 - p;
            let ghost prev = out@;
            out.push(self.data[3 * q]);
            out.push(self.data[3 * q + 1]);
            out.push(self.data[3 * q + 2]);
            proof {
                assert forall|j: int| 0 <= j < p + 1 implies #[trigger] pixel_at(out@, j) == old(
                    self,
                ).spec_pixels()[npix - 1 - j] by {
                    if j < p {
                        assert(pixel_at(out@, j) == pixel_at(prev, j));
                    } else {
                        assert(pixel_at(out@, j) == pixel_at(self.data@, q as int));
                        assert(old(self).spec_pixels()[q as int] == pixel_at(self.data@, q as int));
                    }
                }
            }
            p = p + 1;
        }
        self.data = out;
        proof {
            assert(self.spec_pixels() =~= old(self).spec_pixels().reverse());
        }
    }

    /// Invert every colour channel in place.
    pub fn invert(&mut self)
        requires
            old(self).wf(),
        ensures
            final(self).wf(),
            final(self).width == old(self).width,
            final(self).height == old(self).height,
            final(self).spec_pixels() == old(self).spec_pixels().map_values(
                |q: (u8, u8, u8)| spec_invert_pixel(q),
            ),
    {
        let total = self.data.len();
        let mut i: usize = 0;
        while i < total
            invariant
                self.width == old(self).width,
                self.height == old(self).height,
                self.data@.len() == total,
                total == old(self).data@.len(),
                old(self).wf(),
                i <= total,
                forall|j: int| 0 <= j < i ==> self.data@[j] == 255 - old(self).data@[j],
                forall|j: int| i <= j < total ==> self.data@[j] == old(self).data@[j],
            decreases total - i,
        {
            let v = self.data[i];
            self.data[i] = 255 - v;
            i = i + 1;
        }
        proof {
            let n = (self.width * self.height) as int;
            assert forall|q: int| 0 <= q < n implies self.spec_pixels()[q] == old(
                self,
            ).spec_pixels().map_values(|t: (u8, u8, u8)| spec_invert_pixel(t))[q] by {
                assert(self.data@[3 * q] == 255 - old(self).data@[3 * q]);
                assert(self.data@[3 * q + 1] == 255 - old(self).data@[3 * q + 1]);
                assert(self.data@[3 * q + 2] == 255 - old(self).data@[3 * q + 2]);
            }
            assert(self.spec_pixels() =~= old(self).spec_pixels().map_values(
                |q: (u8, u8, u8)| spec_invert_pixel(q),
            ));
        }
    }

    /// Rotate every pixel's hue by ninety degrees in place.
    pub fn hue_rotate90(&mut self)
        requires
            old(self).wf(),
        ensures
            final(self).wf(),
            final(self).width == old(self).width,
            final(self).height == old(self).height,
            final(self).spec_pixels() == old(self).spec_pixels().map_values(
                |q: (u8, u8, u8)| spec_hue_pixel(q),
            ),
    {
        let total = self.data.len();
        proof {
            assert(self.width * self.height <= 3 * (self.width * self.height)) by (nonlinear_arith);
        }
        let npix = self.width * self.height;
        let mut p: usize = 0;
        while p < npix
            invariant
                self.width == old(self).width,
                self.height == old(self).height,
                self.data@.len() == total,
                total == old(self).data@.len(),
                old(self).wf(),
                3 * npix == total,
                npix == self.width * self.height,
                p <= npix,
                forall|q: int|
                    0 <= q < p ==> #[trigger] pixel_at(self.data@, q) == spec_hue_pixel(
                        pixel_at(old(self).data@, q),
                    ),
                forall|j: int| 3 * p <= j < total ==> self.data@[j] == old(self).data@[j],
            decreases npix - p,
        {
            let r = self.data[3 * p];
            let g = self.data[3 * p + 1];
            let b = self.data[3 * p + 2];
            let tg: i32 = 356 * (r as i32) + 855 * (g as i32) - 211 * (b as i32);
            let tb: i32 = 1430 * (g as i32) + 144 * (b as i32) - 574 * (r as i32);
            let ghost prev = self.data@;
            self.data[3 * p] = b;
            self.data[3 * p + 1] = hue_clamp(tg);
            self.data[3 * p + 2] = hue_clamp(tb);
            proof {
                assert forall|q: int| 0 <= q < p + 1 implies #[trigger] pixel_at(self.data@, q)
                    == spec_hue_pixel(pixel_at(old(self).data@, q)) by {
                    if q < p {
                        assert(pixel_at(self.data@, q) == pixel_at(prev, q));
                    } else {
                        assert(pixel_at(old(self).data@, q) == (r, g, b));
                    }
                }
            }
            p = p + 1;
        }
        proof {
            assert(self.spec_pixels() =~= old(self).spec_pixels().map_values(
                |q: (u8, u8, u8)| spec_hue_pixel(q),
            ));
        }
    }

    /// Apply the transforms a descriptor's flag set selects, in the fixed
    /// order: rotation, then hue rotation, then inversion.
    pub fn apply_transforms(&mut self, flags: TransformFlags)
        requires
            old(self).wf(),
        ensures
            final(self).wf(),
            final(self).width == old(self).width,
            final(self).height == old(self).height,
            final(self).spec_pixels() == spec_apply_flags(old(self).spec_pixels(), flags),
    {
        if flags.contains(ImageTransformFlags::ROT180) {
            self.rotate180();
        }
        if flags.contains(ImageTransformFlags::HUEROT90) {
            self.hue_rotate90();
        }
        if flags.contains(ImageTransformFlags::INVERT) {
            self.invert();
        }
    }
}

/// The flat byte string a pixel sequence stands for, three bytes per
/// pixel.
pub open spec fn bytes_of_pixels(px: Seq<(u8, u8, u8)>) -> Seq<u8> {
    Seq::new(
        3 * px.len(),
        |i: int|
            {
                let t = px[i / 3];
                if i % 3 == 0 {
                    t.0
                } else if i % 3 == 1 {
                    t.1
                } else {
                    t.2
                }
            },
    )
}

/// A well-formed raster's byte buffer is exactly the flattening of its
/// pixel sequence.
pub proof fn lemma_raster_bytes(r: RgbRaster)
    requires
        r.wf(),
    ensures
        r.data@ == bytes_of_pixels(r.spec_pixels()),
{
    let d = r.data@;
    let px = r.spec_pixels();
    assert forall|i: int| 0 <= i < 3 * px.len() implies bytes_of_pixels(px)[i] == d[i] by {
        let p = i / 3;
        let c = i % 3;
        lemma_fundamental_div_mod(i, 3);
        assert(3 * p <= i < 3 * px.len());
        assert(p < px.len());
        assert(px[p] == pixel_at(d, p));
    }
    assert(d =~= bytes_of_pixels(px));
}

/// Rotating a raster by 180 degrees twice restores it exactly.
pub proof fn lemma_rot180_idempotent(px: Seq<(u8, u8, u8)>)
    ensures
        px.reverse().reverse() == px,
{
    assert(px.reverse().reverse() =~= px);
}

} // verus!
