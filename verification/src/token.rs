//! The transport token: the URL-safe base64 form of an encoded descriptor,
//! exactly what a client carries between the random redirect and the image
//! fetch.  This is the attacker-facing entry point: every byte string up to
//! the accepted length bound is either decoded or rejected with a
//! validation error, never a panic.

use vstd::prelude::*;

use crate::codec;
use crate::codec::{decode_ok, spec_decoded, spec_encode};
use crate::errors::UserError;
use crate::image_params::ImageParams;

verus! {

/// Longest accepted token, in bytes; anything longer is rejected before
/// any decoding is attempted.
pub const MAX_B64_LEN: usize = 500;

/// The URL-safe, padded base64 encoding of a byte string, itself as ASCII
/// bytes.
pub uninterp spec fn b64url_of(b: Seq<u8>) -> Seq<u8>;

/// Relies on `base64::encode_config` with `base64::URL_SAFE`: the encoding
/// is a function of the input bytes alone, four output characters for
/// every three input bytes (padded), drawn from the URL-safe alphabet and
/// `=`, which contains neither `.` nor any whitespace.
#[verifier::external_body]
fn b64_encode(b: &[u8]) -> (r: Vec<u8>)
    ensures
        r@ == b64url_of(b@),
        r@.len() == 4 * ((b@.len() + 2) / 3),
        forall|i: int| 0 <= i < r@.len() ==> r@[i] != 46u8,
        forall|i: int| 0 <= i < r@.len() ==> !spec_is_ws(#[trigger] r@[i]),
{
    base64::encode_config(b, base64::URL_SAFE).into_bytes()
}

/// Relies on `base64::decode_config` with `base64::URL_SAFE`: decoding the
/// encoding of any byte string gives back exactly that byte string.
#[verifier::external_body]
fn b64_decode(s: &[u8]) -> (r: Option<Vec<u8>>)
    ensures
        r is None ==> forall|x: Seq<u8>| s@ != #[trigger] b64url_of(x),
        r matches Some(v) ==> forall|x: Seq<u8>| s@ == #[trigger] b64url_of(x) ==> v@ == x,
{
    base64::decode_config(s, base64::URL_SAFE).ok()
}

/// ASCII whitespace, as trimming sees it.
pub open spec fn spec_is_ws(b: u8) -> bool {
    b == 32 || (9 <= b && b <= 13)
}

/// Whether a token consists of whitespace alone, so that trimming it
/// leaves nothing.
pub open spec fn spec_is_blank(t: Seq<u8>) -> bool {
    forall|i: int| 0 <= i < t.len() ==> spec_is_ws(#[trigger] t[i])
}

/// Executable twin of [`spec_is_blank`].
fn is_blank(bytes: &[u8]) -> (r: bool)
    ensures
        r == spec_is_blank(bytes@),
{
    let n = bytes.len();
    let mut i: usize = 0;
    while i < n
        invariant
            i <= n,
            n == bytes@.len(),
            forall|j: int| 0 <= j < i ==> spec_is_ws(#[trigger] bytes@[j]),
        decreases n - i,
    {
        let b = bytes[i];
        if !(b == 32 || (9 <= b && b <= 13)) {
            return false;
        }
        i = i + 1;
    }
    true
}

/// A byte string with every `.png` occurrence removed, leftmost first.
pub open spec fn spec_strip_png(b: Seq<u8>) -> Seq<u8>
    decreases b.len(),
{
    if b.len() < 4 {
        b
    } else if b[0] == 46u8 && b[1] == 112u8 && b[2] == 110u8 && b[3] == 103u8 {
        spec_strip_png(b.skip(4))
    } else {
        seq![b[0]] + spec_strip_png(b.skip(1))
    }
}

/// Remove every `.png` occurrence from a byte string, as the image route
/// does before decoding the token out of a `<token>.png` path segment.
pub fn strip_png(bytes: &[u8]) -> (out: Vec<u8>)
    ensures
        out@ == spec_strip_png(bytes@),
{
    let n = bytes.len();
    let mut out: Vec<u8> = Vec::new();
    let mut i: usize = 0;
    proof {
        assert(bytes@.skip(0) =~= bytes@);
    }
    while i < n
        invariant
            i <= n,
            n == bytes@.len(),
            spec_strip_png(bytes@) == out@ + spec_strip_png(bytes@.skip(i as int)),
        decreases n - i,
    {
        let ghost rest = bytes@.skip(i as int);
        if n - i >= 4 && bytes[i] == 46 && bytes[i + 1] == 112 && bytes[i + 2] == 110 && bytes[i
            + 3] == 103 {
            proof {
                assert(rest.skip(4) =~= bytes@.skip(i as int + 4));
                assert(spec_strip_png(rest) == spec_strip_png(bytes@.skip(i as int + 4)));
            }
            i = i + 4;
        } else {
            out.push(bytes[i]);
            proof {
                assert(rest.skip(1) =~= bytes@.skip(i as int + 1));
                if rest.len() < 4 {
                    assert(rest =~= seq![bytes@[i as int]] + bytes@.skip(i as int + 1));
                    assert(spec_strip_png(bytes@.skip(i as int + 1)) == bytes@.skip(i as int + 1));
                } else {
                    assert(spec_strip_png(rest) == seq![rest[0]] + spec_strip_png(rest.skip(1)));
                }
                assert(out@ + spec_strip_png(bytes@.skip(i as int + 1)) == spec_strip_png(bytes@));
            }
            i = i + 1;
        }
    }
    proof {
        assert(bytes@.skip(n as int) =~= Seq::<u8>::empty());
    }
    out
}

/// Serialize a descriptor into its transport token: the URL-safe base64
/// bytes of its wire record.
pub fn encode_token(p: &ImageParams) -> (r: Vec<u8>)
    ensures
        r@ == b64url_of(spec_encode(*p)),
        r@.len() == 80,
        !spec_is_blank(r@),
{
    let bin = codec::encode(p);
    let out = b64_encode(bin.as_slice());
    proof {
        assert(!spec_is_ws(out@[0]));
        assert(!spec_is_blank(out@));
    }
    out
}

/// Read a descriptor back out of an untrusted transport token.
///
/// The token is rejected before any decoding when it is empty, whitespace
/// alone, or longer than [`MAX_B64_LEN`].  Otherwise it is base64-decoded (a `<token>.png`
/// path segment is accepted: `.png` occurrences are removed when plain
/// decoding fails) and the wire record is decoded.  Every token an encoded
/// well-formed descriptor produces comes back as exactly that descriptor;
/// every failure is a validation error, never a panic or an internal
/// fault.
pub fn decode_token(token: &[u8]) -> (r: Result<ImageParams, UserError>)
    ensures
        r matches Ok(p) ==> {
            &&& p.wf()
            &&& 1 <= token@.len() <= MAX_B64_LEN
            &&& !spec_is_blank(token@)
            &&& exists|raw: Seq<u8>| decode_ok(raw) && p == spec_decoded(raw)
        },
        r matches Err(e) ==> e is ValidationError,
        token@.len() == 0 || token@.len() > MAX_B64_LEN || spec_is_blank(token@) ==> (r matches Err(
            e,
        ) && e.spec_message() == "invalid base64 provided"@),
        forall|p: ImageParams|
            p.wf() && token@ == #[trigger] b64url_of(spec_encode(p)) && 1 <= token@.len()
                <= MAX_B64_LEN && !spec_is_blank(token@) ==> (r matches Ok(q) && q == p),
{
    if token.len() == 0 || token.len() > MAX_B64_LEN {
        return Err(
            UserError::ValidationError { message: "invalid base64 provided".to_owned() },
        );
    }
    if is_blank(token) {
        return Err(
            UserError::ValidationError { message: "invalid base64 provided".to_owned() },
        );
    }
    let direct = b64_decode(token);
    let bin = match direct {
        Some(v) => v,
        None => {
            let stripped = strip_png(token);
            match b64_decode(stripped.as_slice()) {
                Some(v) => v,
                None => {
                    proof {
                        assert forall|p: ImageParams|
                            p.wf() && token@ == #[trigger] b64url_of(spec_encode(p)) && 1
                                <= token@.len() <= MAX_B64_LEN implies false by {
                            assert(token@ != b64url_of(spec_encode(p)));
                        }
                    }
                    return Err(
                        UserError::ValidationError {
                            message: "Invalid base64 provided".to_owned(),
                        },
                    );
                },
            }
        },
    };
    match codec::decode(bin.as_slice()) {
        Ok(p) => {
            proof {
                assert forall|q: ImageParams|
                    q.wf() && token@ == #[trigger] b64url_of(spec_encode(q)) && 1 <= token@.len()
                        <= MAX_B64_LEN implies p == q by {
                    assert(bin@ == spec_encode(q));
                    codec::lemma_codec_round_trip(q);
                }
            }
            Ok(p)
        },
        Err(_) => {
            proof {
                assert forall|p: ImageParams|
                    p.wf() && token@ == #[trigger] b64url_of(spec_encode(p)) && 1 <= token@.len()
                        <= MAX_B64_LEN implies false by {
                    assert(bin@ == spec_encode(p));
                    codec::lemma_codec_round_trip(p);
                }
            }
            Err(UserError::ValidationError { message: "Invalid base64 provided".to_owned() })
        },
    }
}

} // verus!
