//! The reversible binary wire format of a viewport descriptor.
//!
//! The layout is a fixed 60-byte record, little endian throughout: width and
//! height as two 64-bit unsigned integers, the two corner coordinates as two
//! 64-bit floats each, the zoom factor as one 64-bit float (floats travel as
//! their raw bit patterns), the three colour bytes, and one flag byte.
//! Decoding is total over arbitrary byte strings: it reads nothing past the
//! record and rejects malformed input with a tagged error.

use vstd::prelude::*;

use vstd::bytes::{
    lemma_auto_spec_u64_to_from_le_bytes, spec_u64_from_le_bytes, spec_u64_to_le_bytes,
    u64_from_le_bytes, u64_to_le_bytes,
};

use crate::image_params::{Complex64, ImageParams, TransformFlags};

verus! {

/// Exact length in bytes of every encoded descriptor.
pub const ENCODED_LEN: usize = 60;

/// Why a byte string failed to decode.
#[derive(Clone, Copy, Debug, PartialEq, Eq, Structural)]
pub enum DecodeError {
    /// Fewer bytes than one whole record.
    TooShort,
    /// A recorded dimension does not fit this platform's `usize`.
    InvalidBounds,
    /// The flag byte holds a bit no transform is defined for.
    InvalidFlags,
}

/// The wire image of a descriptor.
pub open spec fn spec_encode(p: ImageParams) -> Seq<u8> {
    spec_u64_to_le_bytes(p.bounds.0 as u64) + spec_u64_to_le_bytes(p.bounds.1 as u64)
        + spec_u64_to_le_bytes(p.upper_left.re) + spec_u64_to_le_bytes(p.upper_left.im)
        + spec_u64_to_le_bytes(p.lower_right.re) + spec_u64_to_le_bytes(p.lower_right.im)
        + spec_u64_to_le_bytes(p.zoom_factor) + seq![
        p.rgb_consts.0,
        p.rgb_consts.1,
        p.rgb_consts.2,
        p.transform_flags.spec_bits(),
    ]
}

/// The first recorded dimension, before the `usize` fit check.
pub open spec fn spec_width64(b: Seq<u8>) -> u64 {
    spec_u64_from_le_bytes(b.subrange(0, 8))
}

/// The second recorded dimension, before the `usize` fit check.
pub open spec fn spec_height64(b: Seq<u8>) -> u64 {
    spec_u64_from_le_bytes(b.subrange(8, 16))
}

/// Whether a byte string decodes at all.  Trailing bytes past the record
/// are ignored: the wire contract fixes only the record itself.
pub open spec fn decode_ok(b: Seq<u8>) -> bool {
    &&& b.len() >= ENCODED_LEN
    &&& spec_width64(b) <= usize::MAX
    &&& spec_height64(b) <= usize::MAX
    &&& b[59] < 8
}

/// The descriptor a decodable byte string stands for.
pub open spec fn spec_decoded(b: Seq<u8>) -> ImageParams {
    ImageParams {
        bounds: (spec_width64(b) as usize, spec_height64(b) as usize),
        upper_left: Complex64 {
            re: spec_u64_from_le_bytes(b.subrange(16, 24)),
            im: spec_u64_from_le_bytes(b.subrange(24, 32)),
        },
        lower_right: Complex64 {
            re: spec_u64_from_le_bytes(b.subrange(32, 40)),
            im: spec_u64_from_le_bytes(b.subrange(40, 48)),
        },
        zoom_factor: spec_u64_from_le_bytes(b.subrange(48, 56)),
        rgb_consts: (b[56], b[57], b[58]),
        transform_flags: TransformFlags::spec_from_bits(b[59]),
    }
}

/// The error an undecodable byte string is rejected with, checks in wire
/// order: length first, then the dimensions, then the flag byte.
pub open spec fn spec_decode_err(b: Seq<u8>) -> DecodeError {
    if b.len() < ENCODED_LEN {
        DecodeError::TooShort
    } else if spec_width64(b) > usize::MAX || spec_height64(b) > usize::MAX {
        DecodeError::InvalidBounds
    } else {
        DecodeError::InvalidFlags
    }
}

/// Serialize a descriptor to its fixed 60-byte wire record.
pub fn encode(p: &ImageParams) -> (out: Vec<u8>)
    ensures
        out@ == spec_encode(*p),
        out@.len() == ENCODED_LEN,
{
    let mut out: Vec<u8> = Vec::new();
    let mut piece = u64_to_le_bytes(p.bounds.0 as u64);
    out.append(&mut piece);
    let mut piece = u64_to_le_bytes(p.bounds.1 as u64);
    out.append(&mut piece);
    let mut piece = u64_to_le_bytes(p.upper_left.re);
    out.append(&mut piece);
    let mut piece = u64_to_le_bytes(p.upper_left.im);
    out.append(&mut piece);
    let mut piece = u64_to_le_bytes(p.lower_right.re);
    out.append(&mut piece);
    let mut piece = u64_to_le_bytes(p.lower_right.im);
    out.append(&mut piece);
    let mut piece = u64_to_le_bytes(p.zoom_factor);
    out.append(&mut piece);
    out.push(p.rgb_consts.0);
    out.push(p.rgb_consts.1);
    out.push(p.rgb_consts.2);
    out.push(p.transform_flags.bits());
    proof {
        assert(out@ =~= spec_encode(*p));
    }
    out
}

/// Deserialize a descriptor from untrusted bytes.
///
/// Succeeds exactly on byte strings at least one whole record long whose
/// dimensions fit `usize` and whose flag byte holds only defined bits;
/// everything else is rejected with the matching [`DecodeError`].
pub fn decode(bytes: &[u8]) -> (r: Result<ImageParams, DecodeError>)
    ensures
        match r {
            Ok(p) => decode_ok(bytes@) && p == spec_decoded(bytes@) && p.wf(),
            Err(e) => !decode_ok(bytes@) && e == spec_decode_err(bytes@),
        },
{
    if bytes.len() < ENCODED_LEN {
        return Err(DecodeError::TooShort);
    }
    let w64 = u64_from_le_bytes(&bytes[0..8]);
    let h64 = u64_from_le_bytes(&bytes[8..16]);
    if w64 > usize::MAX as u64 || h64 > usize::MAX as u64 {
        return Err(DecodeError::InvalidBounds);
    }
    let ul_re = u64_from_le_bytes(&bytes[16..24]);
    let ul_im = u64_from_le_bytes(&bytes[24..32]);
    let lr_re = u64_from_le_bytes(&bytes[32..40]);
    let lr_im = u64_from_le_bytes(&bytes[40..48]);
    let zoom = u64_from_le_bytes(&bytes[48..56]);
    let flags = match TransformFlags::from_byte(bytes[59]) {
        Some(f) => f,
        None => {
            return Err(DecodeError::InvalidFlags);
        },
    };
    Ok(
        ImageParams {
            bounds: (w64 as usize, h64 as usize),
            upper_left: Complex64 { re: ul_re, im: ul_im },
            lower_right: Complex64 { re: lr_re, im: lr_im },
            zoom_factor: zoom,
            rgb_consts: (bytes[56], bytes[57], bytes[58]),
            transform_flags: flags,
        },
    )
}

/// Round trip: every well-formed descriptor survives encoding and decoding
/// unchanged, so the wire token pins the descriptor exactly.
pub proof fn lemma_codec_round_trip(p: ImageParams)
    requires
        p.wf(),
    ensures
        decode_ok(spec_encode(p)),
        spec_decoded(spec_encode(p)) == p,
{
    lemma_auto_spec_u64_to_from_le_bytes();
    let e = spec_encode(p);
    assert(e.len() == 60);
    assert(e.subrange(0, 8) =~= spec_u64_to_le_bytes(p.bounds.0 as u64));
    assert(e.subrange(8, 16) =~= spec_u64_to_le_bytes(p.bounds.1 as u64));
    assert(e.subrange(16, 24) =~= spec_u64_to_le_bytes(p.upper_left.re));
    assert(e.subrange(24, 32) =~= spec_u64_to_le_bytes(p.upper_left.im));
    assert(e.subrange(32, 40) =~= spec_u64_to_le_bytes(p.lower_right.re));
    assert(e.subrange(40, 48) =~= spec_u64_to_le_bytes(p.lower_right.im));
    assert(e.subrange(48, 56) =~= spec_u64_to_le_bytes(p.zoom_factor));
    assert(e[56] == p.rgb_consts.0);
    assert(e[57] == p.rgb_consts.1);
    assert(e[58] == p.rgb_consts.2);
    assert(e[59] == p.transform_flags.spec_bits());
    assert(spec_width64(e) == p.bounds.0 as u64);
    assert(spec_height64(e) == p.bounds.1 as u64);
    TransformFlags::lemma_from_bits(e[59]);
    TransformFlags::lemma_bits_injective(
        TransformFlags::spec_from_bits(e[59]),
        p.transform_flags,
    );
    assert(spec_decoded(e) == p);
}

} // verus!
