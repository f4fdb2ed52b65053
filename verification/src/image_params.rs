//! The viewport descriptor: the only value this library persists or
//! transports, plus the per-fetch post-processing configuration.

use vstd::prelude::*;

use crate::errors::InvalidPostProcessConfig;

verus! {

/// Fixed width of every output raster, in pixels.
pub const OUTPUT_WIDTH: usize = 300;

/// Fixed height of every output raster, in pixels.
pub const OUTPUT_HEIGHT: usize = 300;

/// One whole-image transform that a descriptor may request.
#[allow(non_camel_case_types)]
#[derive(Clone, Copy, Debug, PartialEq, Eq, Structural)]
pub enum ImageTransformFlags {
    ROT180,
    HUEROT90,
    INVERT,
}

impl ImageTransformFlags {
    /// The wire bit that stands for this transform in the flag byte.
    pub open spec fn spec_bit(self) -> u8 {
        match self {
            ImageTransformFlags::ROT180 => 1u8,
            ImageTransformFlags::HUEROT90 => 2u8,
            ImageTransformFlags::INVERT => 4u8,
        }
    }

    /// Executable twin of [`Self::spec_bit`].
    pub fn bit(self) -> (b: u8)
        ensures
            b == self.spec_bit(),
    {
        match self {
            ImageTransformFlags::ROT180 => 1u8,
            ImageTransformFlags::HUEROT90 => 2u8,
            ImageTransformFlags::INVERT => 4u8,
        }
    }
}

/// A set of zero or more transform toggles, stored as one wire byte.
#[derive(Clone, Copy, Debug, PartialEq, Eq, Structural)]
pub struct TransformFlags {
    bits: u8,
}

impl TransformFlags {
    /// The raw flag byte.
    pub closed spec fn spec_bits(self) -> u8 {
        self.bits
    }

    /// Only the three defined transform bits may be set.
    pub open spec fn wf(self) -> bool {
        self.spec_bits() < 8
    }

    /// Whether this set holds the given transform.
    pub open spec fn spec_contains(self, f: ImageTransformFlags) -> bool {
        self.spec_bits() & f.spec_bit() != 0
    }

    /// The empty set: no transform is applied.
    pub fn empty() -> (r: Self)
        ensures
            r.spec_bits() == 0,
            r.wf(),
            forall|f: ImageTransformFlags| !r.spec_contains(f),
    {
        proof {
            assert(forall|f: ImageTransformFlags| 0u8 & f.spec_bit() == 0) by (bit_vector);
        }
        TransformFlags { bits: 0 }
    }

    /// The set with the given transform added; everything else is kept as
    /// it was.
    pub fn with(self, f: ImageTransformFlags) -> (r: Self)
        requires
            self.wf(),
        ensures
            r.spec_bits() == self.spec_bits() | f.spec_bit(),
            r.wf(),
            forall|g: ImageTransformFlags|
                #[trigger] r.spec_contains(g) <==> (self.spec_contains(g) || g == f),
    {
        let b = self.bits | f.bit();
        proof {
            let ob = self.bits;
            let fb = f.spec_bit();
            assert(ob < 8 && (fb == 1 || fb == 2 || fb == 4) ==> (ob | fb) < 8) by (bit_vector);
            assert forall|g: ImageTransformFlags| ((ob | fb) & g.spec_bit() != 0) <==> (ob
                & g.spec_bit() != 0 || g == f) by {
                let gb = g.spec_bit();
                assert((fb == 1 || fb == 2 || fb == 4) && (gb == 1 || gb == 2 || gb == 4) ==> (((ob
                    | fb) & gb != 0) <==> (ob & gb != 0 || gb == fb))) by (bit_vector);
            }
        }
        TransformFlags { bits: b }
    }

    /// Whether the set holds the given transform.
    pub fn contains(self, f: ImageTransformFlags) -> (r: bool)
        ensures
            r == self.spec_contains(f),
    {
        self.bits & f.bit() != 0
    }

    /// The raw flag byte, as written on the wire.
    pub fn bits(self) -> (b: u8)
        ensures
            b == self.spec_bits(),
    {
        self.bits
    }

    /// The set whose raw byte is exactly `b`.
    pub closed spec fn spec_from_bits(b: u8) -> TransformFlags {
        TransformFlags { bits: b }
    }

    /// The raw byte of `spec_from_bits(b)` is `b` itself.
    pub proof fn lemma_from_bits(b: u8)
        ensures
            Self::spec_from_bits(b).spec_bits() == b,
    {
    }

    /// Two sets with the same raw byte are the same set.
    pub proof fn lemma_bits_injective(a: Self, c: Self)
        requires
            a.spec_bits() == c.spec_bits(),
        ensures
            a == c,
    {
    }

    /// Rebuild a set from a wire byte; bits outside the defined three are
    /// rejected.
    pub fn from_byte(b: u8) -> (r: Option<Self>)
        ensures
            b < 8 ==> (r matches Some(t) && t == Self::spec_from_bits(b) && t.wf()),
            b >= 8 ==> r is None,
    {
        if b < 8 {
            Some(TransformFlags { bits: b })
        } else {
            None
        }
    }
}

/// A complex number carried as the raw bit patterns of its two IEEE 754
/// binary64 components, exactly as they stand on the wire.
#[derive(Clone, Copy, Debug, PartialEq, Eq, Structural)]
pub struct Complex64 {
    /// Bit pattern of the real component.
    pub re: u64,
    /// Bit pattern of the imaginary component.
    pub im: u64,
}

/// The viewport descriptor: bounds, complex-plane rectangle, zoom
/// provenance, colour constants and transform toggles.
#[derive(Clone, Copy, Debug, PartialEq)]
pub struct ImageParams {
    /// Raster dimensions recorded at creation; rendering always uses the
    /// process-wide fixed output size instead.
    pub bounds: (usize, usize),
    /// Upper-left corner of the rendered complex-plane region.
    pub upper_left: Complex64,
    /// Lower-right corner of the rendered complex-plane region.
    pub lower_right: Complex64,
    /// Zoom scalar recorded for provenance, as a binary64 bit pattern.
    pub zoom_factor: u64,
    /// The three byte constants that seed the colouring rule.
    pub rgb_consts: (u8, u8, u8),
    /// Which whole-image transforms to apply after rendering.
    pub transform_flags: TransformFlags,
}

impl ImageParams {
    /// A descriptor is well formed when its flag byte holds no undefined bit.
    pub open spec fn wf(self) -> bool {
        self.transform_flags.wf()
    }

    /// Assemble the descriptor the viewport sampler produces, from the
    /// values it drew: the re-projected complex rectangle, the zoom
    /// scalar, the three colour bytes, and one fair coin per enabled
    /// transform.  Colour inversion is defined but disabled by policy, so
    /// the sampler never sets it.
    pub fn from_sample_parts(
        bounds: (usize, usize),
        upper_left: Complex64,
        lower_right: Complex64,
        zoom_factor: u64,
        rgb_consts: (u8, u8, u8),
        rot180: bool,
        huerot90: bool,
    ) -> (r: ImageParams)
        ensures
            r.wf(),
            r.bounds == bounds,
            r.upper_left == upper_left,
            r.lower_right == lower_right,
            r.zoom_factor == zoom_factor,
            r.rgb_consts == rgb_consts,
            r.transform_flags.spec_contains(ImageTransformFlags::ROT180) == rot180,
            r.transform_flags.spec_contains(ImageTransformFlags::HUEROT90) == huerot90,
            !r.transform_flags.spec_contains(ImageTransformFlags::INVERT),
    {
        let mut flags = TransformFlags::empty();
        if rot180 {
            flags = flags.with(ImageTransformFlags::ROT180);
        }
        if huerot90 {
            flags = flags.with(ImageTransformFlags::HUEROT90);
        }
        ImageParams {
            bounds,
            upper_left,
            lower_right,
            zoom_factor,
            rgb_consts,
            transform_flags: flags,
        }
    }

    /// The output raster size; fixed process-wide, whatever the descriptor
    /// carries in `bounds`.
    pub fn get_bounds(&self) -> (r: (usize, usize))
        ensures
            r.0 == OUTPUT_WIDTH && r.1 == OUTPUT_HEIGHT,
    {
        (OUTPUT_WIDTH, OUTPUT_HEIGHT)
    }
}

/// The overlay variants the post-processor can composite, each with its own
/// parameters.
#[derive(Clone, Copy, Debug, PartialEq, Eq, Structural)]
pub enum OverlayImageTypes {
    Profile { width: u32, height: u32 },
}

/// Per-fetch post-processing choices, decoded from the request's query
/// parameters.
#[derive(Clone, Copy, Debug, PartialEq, Eq, Structural)]
pub struct ImagePostProcessConfig {
    /// The overlay to composite, if any was requested.
    pub overlay_image_type: Option<OverlayImageTypes>,
}

/// What a scan of the query pairs yields: the selected overlay, or `None`
/// when a recognized key carries an unrecognized value.
pub open spec fn spec_overlay_scan(
    pairs: Seq<(Seq<char>, Seq<char>)>,
    acc: Option<OverlayImageTypes>,
) -> Option<Option<OverlayImageTypes>>
    decreases pairs.len(),
{
    if pairs.len() == 0 {
        Some(acc)
    } else {
        let kv = pairs[0];
        if kv.0 == "overlay"@ {
            if kv.1 == "profile"@ {
                spec_overlay_scan(
                    pairs.drop_first(),
                    Some(OverlayImageTypes::Profile {
                        width: OUTPUT_WIDTH as u32,
                        height: OUTPUT_HEIGHT as u32,
                    }),
                )
            } else {
                None
            }
        } else {
            spec_overlay_scan(pairs.drop_first(), acc)
        }
    }
}

/// The views of a list of owned query pairs.
pub open spec fn spec_pair_views(pairs: Seq<(String, String)>) -> Seq<(Seq<char>, Seq<char>)> {
    pairs.map_values(|p: (String, String)| (p.0@, p.1@))
}

impl ImagePostProcessConfig {
    /// Read the post-processing choices out of the request's query pairs.
    ///
    /// Unrecognized keys are ignored; a recognized key with an unrecognized
    /// value is a validation failure; the last `overlay` pair wins.
    pub fn from_query_params(param_pairs: &Vec<(String, String)>) -> (r: Result<
        Self,
        InvalidPostProcessConfig,
    >)
        ensures
            match r {
                Ok(c) => spec_overlay_scan(spec_pair_views(param_pairs@), None::<OverlayImageTypes>)
                    == Some(c.overlay_image_type),
                Err(e) => spec_overlay_scan(spec_pair_views(param_pairs@), None::<OverlayImageTypes>)
                    is None && e.spec_message() == "Invalid overlay type given."@,
            },
    {
        let ghost all = spec_pair_views(param_pairs@);
        let mut result = ImagePostProcessConfig { overlay_image_type: None };
        let overlay_key: String = "overlay".to_owned();
        let profile_val: String = "profile".to_owned();
        let mut i: usize = 0;
        proof {
            assert(all.skip(0) =~= all);
        }
        while i < param_pairs.len()
            invariant
                i <= param_pairs.len(),
                overlay_key@ == "overlay"@,
                profile_val@ == "profile"@,
                all == spec_pair_views(param_pairs@),
                spec_overlay_scan(all, None::<OverlayImageTypes>) == spec_overlay_scan(
                    all.skip(i as int),
                    result.overlay_image_type,
                ),
            decreases param_pairs.len() - i,
        {
            let kv = &param_pairs[i];
            proof {
                assert(all.skip(i as int)[0] == all[i as int]);
                assert(all.skip(i as int).drop_first() =~= all.skip(i as int + 1));
            }
            if kv.0 == overlay_key {
                if kv.1 == profile_val {
                    result.overlay_image_type = Some(OverlayImageTypes::Profile {
                        width: OUTPUT_WIDTH as u32,
                        height: OUTPUT_HEIGHT as u32,
                    });
                } else {
                    return Err(InvalidPostProcessConfig::Default {
                        message: "Invalid overlay type given.".to_owned(),
                    });
                }
            }
            i = i + 1;
        }
        proof {
            assert(all.skip(param_pairs@.len() as int) =~= Seq::<(Seq<char>, Seq<char>)>::empty());
        }
        Ok(result)
    }

    /// Whether any post-processing step was selected.
    pub fn should_post_process(&self) -> (r: bool)
        ensures
            r == (self.overlay_image_type is Some),
    {
        if self.overlay_image_type.is_some() {
            return true;
        }
        false
    }
}

} // verus!
