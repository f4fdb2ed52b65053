//! IEEE 754 binary64 arithmetic carried out on raw bit patterns in plain
//! integer code: multiplication, addition, subtraction and ordering, with
//! round-to-nearest-even, subnormals, infinities and NaN, so the
//! escape-time iteration can run inside the library on exactly the values
//! the wire format carries.  Every operation's result is pinned bit for
//! bit by a spec function that mirrors it.

use vstd::prelude::*;

verus! {

/// Sign bit of a binary64 bit pattern.
pub open spec fn spec_sign(x: u64) -> u64 {
    x >> 63
}

/// Biased exponent field of a binary64 bit pattern.
pub open spec fn spec_exp(x: u64) -> u64 {
    (x >> 52) & 0x7ff
}

/// Fraction field of a binary64 bit pattern.
pub open spec fn spec_frac(x: u64) -> u64 {
    x & 0xf_ffff_ffff_ffff
}

/// Whether the pattern is a NaN of either sign.
pub open spec fn spec_is_nan(x: u64) -> bool {
    spec_exp(x) == 0x7ff && spec_frac(x) != 0
}

/// Whether the pattern is an infinity of either sign.
pub open spec fn spec_is_inf(x: u64) -> bool {
    spec_exp(x) == 0x7ff && spec_frac(x) == 0
}

/// Whether the pattern is a zero of either sign.
pub open spec fn spec_is_zero(x: u64) -> bool {
    spec_exp(x) == 0 && spec_frac(x) == 0
}

/// The quiet NaN every invalid operation returns.
pub open spec fn spec_qnan() -> u64 {
    0x7ff8_0000_0000_0000u64
}

/// The integral significand: the fraction with the implicit bit for
/// normal numbers, the bare fraction for subnormals.
pub open spec fn spec_mant(x: u64) -> u64 {
    if spec_exp(x) == 0 {
        spec_frac(x)
    } else {
        spec_frac(x) | 0x10_0000_0000_0000
    }
}

/// The unbiased scale of the integral significand: the represented value
/// is `significand * 2^scale` (sign apart).
pub open spec fn spec_scale(x: u64) -> int {
    (if spec_exp(x) == 0 {
        1int
    } else {
        spec_exp(x) as int
    }) - 1075
}

/// Shift a working significand right until it fits below `2^55`,
/// collecting every bit shifted out into the sticky flag.
pub open spec fn spec_norm_up(m: u128, e: int, sticky: bool) -> (u128, int, bool)
    decreases m,
        via spec_norm_up_dec
{
    if m >= 0x80_0000_0000_0000u128 {
        spec_norm_up(m >> 1, e + 1, sticky || (m & 1) == 1)
    } else {
        (m, e, sticky)
    }
}

#[via_fn]
proof fn spec_norm_up_dec(m: u128, e: int, sticky: bool) {
    assert(m >= 0x80_0000_0000_0000u128 ==> m >> 1 < m) by (bit_vector);
}

/// Shift a working significand left until it reaches `2^54`.
pub open spec fn spec_norm_down(m: u128, e: int) -> (u128, int)
    recommends
        0 < m < 0x80_0000_0000_0000u128,
    decreases 0x80_0000_0000_0000u128 as int - m,
        via spec_norm_down_dec
{
    if m < 0x40_0000_0000_0000u128 && m > 0 {
        spec_norm_down(m << 1, e - 1)
    } else {
        (m, e)
    }
}

#[via_fn]
proof fn spec_norm_down_dec(m: u128, e: int) {
    assert(m < 0x40_0000_0000_0000u128 && m > 0 ==> m < m << 1 < 0x80_0000_0000_0000u128)
        by (bit_vector);
}

/// Round a positive working value `(m + sticky_remainder) * 2^e` (with
/// `m` already normalized into `[2^54, 2^55)`, two rounding bits low) to
/// the nearest binary64, ties to even, overflowing to infinity and
/// underflowing through the subnormals to zero.
pub open spec fn spec_pack(sign_bit: u64, m0: u128, e0: int, sticky0: bool) -> u64 {
    let (m1, e1, sticky1) = if e0 < -1076 {
        let shift = -1076 - e0;
        if shift >= 55 {
            (0u128, -1076int, true)
        } else {
            (
                m0 >> (shift as u128),
                -1076int,
                sticky0 || m0 & (((((1u128) << (shift as u128)) - 1)) as u128) != 0,
            )
        }
    } else {
        (m0, e0, sticky0)
    };
    let r2 = m1 & 3;
    let q0 = (m1 >> 2) as u64;
    let q = if r2 == 3 || (r2 == 2 && (sticky1 || q0 & 1 == 1)) {
        (q0 + 1) as u64
    } else {
        q0
    };
    let be = e1 + 54 + 1023;
    let (q2, be2) = if q == 0x20_0000_0000_0000u64 {
        (0x10_0000_0000_0000u64, be + 1)
    } else {
        (q, be)
    };
    if be2 >= 2047 {
        (sign_bit << 63) | 0x7ff0_0000_0000_0000
    } else if q2 < 0x10_0000_0000_0000u64 {
        (sign_bit << 63) | q2
    } else {
        (sign_bit << 63) | ((be2 as u64) << 52) | (q2 & 0xf_ffff_ffff_ffff)
    }
}

/// Normalize and round: the whole path from an exact positive product or
/// sum to the packed result.
pub open spec fn spec_round(sign_bit: u64, m: u128, e: int, sticky: bool) -> u64 {
    let (m1, e1, sticky1) = spec_norm_up(m, e, sticky);
    let (m2, e2) = spec_norm_down(m1, e1);
    spec_pack(sign_bit, m2, e2, sticky1)
}

/// Binary64 multiplication on bit patterns, round to nearest, ties to
/// even.
pub open spec fn spec_mul(a: u64, b: u64) -> u64 {
    if spec_is_nan(a) || spec_is_nan(b) {
        spec_qnan()
    } else {
        let sr = spec_sign(a) ^ spec_sign(b);
        if spec_is_inf(a) || spec_is_inf(b) {
            if spec_is_zero(a) || spec_is_zero(b) {
                spec_qnan()
            } else {
                (sr << 63) | 0x7ff0_0000_0000_0000
            }
        } else if spec_is_zero(a) || spec_is_zero(b) {
            sr << 63
        } else {
            let m = ((spec_mant(a) as u128) * (spec_mant(b) as u128)) as u128;
            let e = spec_scale(a) + spec_scale(b);
            spec_round(sr, m, e, false)
        }
    }
}

/// Binary64 addition on bit patterns, round to nearest, ties to even.
pub open spec fn spec_add(a: u64, b: u64) -> u64 {
    if spec_is_nan(a) || spec_is_nan(b) {
        spec_qnan()
    } else if spec_is_inf(a) {
        if spec_is_inf(b) && spec_sign(a) != spec_sign(b) {
            spec_qnan()
        } else {
            a
        }
    } else if spec_is_inf(b) {
        b
    } else if spec_is_zero(a) && spec_is_zero(b) {
        (spec_sign(a) & spec_sign(b)) << 63
    } else if spec_is_zero(a) {
        b
    } else if spec_is_zero(b) {
        a
    } else {
        let swap = spec_scale(a) < spec_scale(b) || (spec_scale(a) == spec_scale(b) && spec_mant(
            a,
        ) < spec_mant(b));
        let (sx, mx, ex) = if swap {
            (spec_sign(b), spec_mant(b), spec_scale(b))
        } else {
            (spec_sign(a), spec_mant(a), spec_scale(a))
        };
        let (sy, my, ey) = if swap {
            (spec_sign(a), spec_mant(a), spec_scale(a))
        } else {
            (spec_sign(b), spec_mant(b), spec_scale(b))
        };
        let d = ex - ey;
        let mx3 = (mx as u128) << 3;
        let my3 = (my as u128) << 3;
        let (my_al, sticky) = if d >= 60 {
            (0u128, true)
        } else {
            (my3 >> (d as u128), my3 & (((((1u128) << (d as u128)) - 1)) as u128) != 0)
        };
        if sx == sy {
            spec_round(sx, ((mx3 + my_al) as u128), ex - 3, sticky)
        } else {
            let m = ((mx3 - my_al - (if sticky {
                1u128
            } else {
                0u128
            })) as u128);
            if m == 0 && !sticky {
                0u64
            } else {
                spec_round(sx, m, ex - 3, sticky)
            }
        }
    }
}

/// Binary64 subtraction: addition of the negated second operand, exactly
/// as IEEE 754 defines it.
pub open spec fn spec_sub(a: u64, b: u64) -> u64 {
    spec_add(a, b ^ 0x8000_0000_0000_0000)
}

/// Binary64 ordering `a > b` on bit patterns: false whenever either is
/// NaN, zeros of both signs equal.
pub open spec fn spec_gt(a: u64, b: u64) -> bool {
    if spec_is_nan(a) || spec_is_nan(b) {
        false
    } else {
        let maga = a & 0x7fff_ffff_ffff_ffff;
        let magb = b & 0x7fff_ffff_ffff_ffff;
        if maga == 0 && magb == 0 {
            false
        } else if spec_sign(a) == 0 && spec_sign(b) == 0 {
            maga > magb
        } else if spec_sign(a) == 1 && spec_sign(b) == 1 {
            maga < magb
        } else {
            spec_sign(a) == 0
        }
    }
}

/// Executable twin of [`spec_sign`].
fn f_sign(x: u64) -> (r: u64)
    ensures
        r == spec_sign(x),
        r <= 1,
{
    proof {
        assert(x >> 63 <= 1) by (bit_vector);
    }
    x >> 63
}

/// Executable twin of [`spec_exp`].
fn f_exp(x: u64) -> (r: u64)
    ensures
        r == spec_exp(x),
        r <= 0x7ff,
{
    proof {
        assert((x >> 52) & 0x7ff <= 0x7ff) by (bit_vector);
    }
    (x >> 52) & 0x7ff
}

/// Executable twin of [`spec_frac`].
fn f_frac(x: u64) -> (r: u64)
    ensures
        r == spec_frac(x),
{
    x & 0xf_ffff_ffff_ffff
}

/// Executable twin of [`spec_is_nan`].
fn f_is_nan(x: u64) -> (r: bool)
    ensures
        r == spec_is_nan(x),
{
    f_exp(x) == 0x7ff && f_frac(x) != 0
}

/// Executable twin of [`spec_is_inf`].
fn f_is_inf(x: u64) -> (r: bool)
    ensures
        r == spec_is_inf(x),
{
    f_exp(x) == 0x7ff && f_frac(x) == 0
}

/// Executable twin of [`spec_is_zero`].
fn f_is_zero(x: u64) -> (r: bool)
    ensures
        r == spec_is_zero(x),
{
    f_exp(x) == 0 && f_frac(x) == 0
}

/// Executable twin of [`spec_mant`].
fn f_mant(x: u64) -> (r: u64)
    ensures
        r == spec_mant(x),
        r < 0x20_0000_0000_0000u64,
{
    proof {
        assert(((x & 0xf_ffff_ffff_ffff) | 0x10_0000_0000_0000) < 0x20_0000_0000_0000u64 && (x
            & 0xf_ffff_ffff_ffff) < 0x20_0000_0000_0000u64) by (bit_vector);
    }
    if f_exp(x) == 0 {
        f_frac(x)
    } else {
        f_frac(x) | 0x10_0000_0000_0000
    }
}

/// A pattern that is not a zero has a nonzero significand.
proof fn lemma_mant_nonzero(x: u64)
    requires
        !spec_is_zero(x),
    ensures
        spec_mant(x) > 0,
{
    if spec_exp(x) == 0 {
        assert(spec_frac(x) != 0);
    } else {
        assert(((x & 0xf_ffff_ffff_ffff) | 0x10_0000_0000_0000) != 0) by (bit_vector);
    }
}

/// A finite value whose scale is above the minimum is normal, so its
/// significand carries the implicit bit.
proof fn lemma_scale_normal(x: u64)
    requires
        spec_scale(x) > -1074,
    ensures
        spec_mant(x) >= 0x10_0000_0000_0000u64,
{
    assert(spec_exp(x) != 0);
    assert(((x & 0xf_ffff_ffff_ffff) | 0x10_0000_0000_0000) >= 0x10_0000_0000_0000u64)
        by (bit_vector);
}

/// Executable twin of [`spec_scale`]; finite patterns only.
fn f_scale(x: u64) -> (r: i64)
    requires
        spec_exp(x) != 0x7ff,
    ensures
        r as int == spec_scale(x),
        -1074 <= r as int <= 971,
{
    let e = f_exp(x);
    let e1: i64 = if e == 0 {
        1
    } else {
        e as i64
    };
    e1 - 1075
}

/// Executable twin of [`spec_norm_up`].
fn f_norm_up(m0: u128, e0: i64, sticky0: bool) -> (r: (u128, i64, bool))
    requires
        m0 < 0x800_0000_0000_0000_0000_0000_0000u128,
        -2600 <= e0 <= 2300,
    ensures
        (r.0, r.1 as int, r.2) == spec_norm_up(m0, e0 as int, sticky0),
        r.0 < 0x80_0000_0000_0000u128,
        m0 > 0 ==> r.0 > 0,
        e0 <= r.1 <= e0 + 52,
{
    let mut m = m0;
    let mut e = e0;
    let mut st = sticky0;
    let mut cnt: u128 = 0;
    proof {
        assert(m0 >> 0u128 == m0) by (bit_vector);
    }
    while m >= 0x80_0000_0000_0000u128
        invariant
            spec_norm_up(m0, e0 as int, sticky0) == spec_norm_up(m, e as int, st),
            m <= m0 >> cnt,
            m0 < 0x800_0000_0000_0000_0000_0000_0000u128,
            m0 > 0 ==> m > 0,
            cnt <= 52,
            e as int == e0 + cnt as int,
            -2600 <= e0 <= 2300,
        decreases m,
    {
        proof {
            assert(cnt < 52) by (bit_vector)
                requires
                    m >= 0x80_0000_0000_0000u128 && m <= m0 >> cnt && m0
                        < 0x800_0000_0000_0000_0000_0000_0000u128 && cnt <= 52,
            ;
            assert((m >> 1) <= m0 >> ((cnt + 1) as u128) && 0 < m >> 1 < m) by (bit_vector)
                requires
                    m >= 0x80_0000_0000_0000u128 && m <= m0 >> cnt && cnt < 52,
            ;
        }
        st = st || (m & 1) == 1;
        m = m >> 1;
        e = e + 1;
        cnt = cnt + 1;
    }
    proof {
        assert(m <= m0) by (bit_vector)
            requires
                m <= m0 >> cnt,
        ;
    }
    (m, e, st)
}

/// Executable twin of [`spec_norm_down`].
fn f_norm_down(m0: u128, e0: i64) -> (r: (u128, i64))
    requires
        0 < m0 < 0x80_0000_0000_0000u128,
        -2600 <= e0 <= 2400,
    ensures
        (r.0, r.1 as int) == spec_norm_down(m0, e0 as int),
        0x40_0000_0000_0000u128 <= r.0 < 0x80_0000_0000_0000u128,
        e0 - 54 <= r.1 <= e0,
{
    let mut m = m0;
    let mut e = e0;
    let mut cnt: u128 = 0;
    proof {
        assert(m0 >> 0u128 == m0) by (bit_vector);
    }
    while m < 0x40_0000_0000_0000u128
        invariant
            spec_norm_down(m0, e0 as int) == spec_norm_down(m, e as int),
            m0 == m >> cnt,
            0 < m0,
            0 < m < 0x80_0000_0000_0000u128,
            cnt <= 54,
            e as int == e0 - cnt as int,
            -2600 <= e0 <= 2400,
        decreases 0x80_0000_0000_0000u128 as int - m,
    {
        proof {
            assert(cnt < 54 && m0 == (m << 1) >> ((cnt + 1) as u128) && m < m << 1
                < 0x80_0000_0000_0000u128) by (bit_vector)
                requires
                    m0 == m >> cnt && m0 > 0 && 0 < m < 0x40_0000_0000_0000u128 && cnt <= 54,
            ;
        }
        m = m << 1;
        e = e - 1;
        cnt = cnt + 1;
    }
    (m, e)
}

/// Executable twin of [`spec_pack`]; the significand arrives normalized.
fn f_pack(sign_bit: u64, m0: u128, e0: i64, sticky0: bool) -> (r: u64)
    requires
        sign_bit <= 1,
        0x40_0000_0000_0000u128 <= m0 < 0x80_0000_0000_0000u128,
        -2700 <= e0 <= 2400,
    ensures
        r == spec_pack(sign_bit, m0, e0 as int, sticky0),
{
    let (m1, e1, sticky1): (u128, i64, bool) = if e0 < -1076 {
        let shift: i64 = -1076 - e0;
        if shift >= 55 {
            (0u128, -1076, true)
        } else {
            let sh = shift as u128;
            proof {
                assert(1 <= sh < 55);
                assert((1u128 << sh) >= 1 && m0 >> sh <= m0) by (bit_vector)
                    requires
                        1 <= sh < 55,
                ;
            }
            (m0 >> sh, -1076, sticky0 || m0 & ((((1u128 << sh) - 1)) as u128) != 0)
        }
    } else {
        (m0, e0, sticky0)
    };
    proof {
        assert(m1 >> 2 < 0x20_0000_0000_0000u128 && ((m1 >> 2) as u64) < 0x20_0000_0000_0000u64)
            by (bit_vector)
            requires
                m1 < 0x80_0000_0000_0000u128,
        ;
    }
    let r2: u128 = m1 & 3;
    let q0: u64 = (m1 >> 2) as u64;
    let q: u64 = if r2 == 3 || (r2 == 2 && (sticky1 || q0 & 1 == 1)) {
        q0 + 1
    } else {
        q0
    };
    let be: i64 = e1 + 54 + 1023;
    let (q2, be2): (u64, i64) = if q == 0x20_0000_0000_0000u64 {
        (0x10_0000_0000_0000u64, be + 1)
    } else {
        (q, be)
    };
    if be2 >= 2047 {
        (sign_bit << 63) | 0x7ff0_0000_0000_0000
    } else if q2 < 0x10_0000_0000_0000u64 {
        (sign_bit << 63) | q2
    } else {
        proof {
            assert(be2 >= 1);
        }
        (sign_bit << 63) | ((be2 as u64) << 52) | (q2 & 0xf_ffff_ffff_ffff)
    }
}

/// Executable twin of [`spec_round`].
fn f_round(sign_bit: u64, m: u128, e: i64, sticky: bool) -> (r: u64)
    requires
        sign_bit <= 1,
        0 < m < 0x800_0000_0000_0000_0000_0000_0000u128,
        -2500 <= e <= 2100,
    ensures
        r == spec_round(sign_bit, m, e as int, sticky),
{
    let (m1, e1, sticky1) = f_norm_up(m, e, sticky);
    let (m2, e2) = f_norm_down(m1, e1);
    f_pack(sign_bit, m2, e2, sticky1)
}

/// Binary64 multiplication on raw bit patterns, rounding to nearest with
/// ties to even, as IEEE 754 defines it.
pub fn mul_bits(a: u64, b: u64) -> (r: u64)
    ensures
        r == spec_mul(a, b),
{
    if f_is_nan(a) || f_is_nan(b) {
        return 0x7ff8_0000_0000_0000;
    }
    let sr = f_sign(a) ^ f_sign(b);
    proof {
        assert(((a >> 63) ^ (b >> 63)) <= 1) by (bit_vector);
    }
    if f_is_inf(a) || f_is_inf(b) {
        if f_is_zero(a) || f_is_zero(b) {
            return 0x7ff8_0000_0000_0000;
        }
        return (sr << 63) | 0x7ff0_0000_0000_0000;
    }
    if f_is_zero(a) || f_is_zero(b) {
        return sr << 63;
    }
    let ma = f_mant(a);
    let mb = f_mant(b);
    proof {
        lemma_mant_nonzero(a);
        lemma_mant_nonzero(b);
        assert((ma as u128) * (mb as u128) < 0x800_0000_0000_0000_0000_0000_0000u128 && (
        ma as u128) * (mb as u128) >= 1) by (nonlinear_arith)
            requires
                1 <= ma < 0x20_0000_0000_0000u64 && 1 <= mb < 0x20_0000_0000_0000u64,
        ;
    }
    let m = (ma as u128) * (mb as u128);
    let e = f_scale(a) + f_scale(b);
    f_round(sr, m, e, false)
}

/// Binary64 addition on raw bit patterns, rounding to nearest with ties
/// to even, as IEEE 754 defines it.
pub fn add_bits(a: u64, b: u64) -> (r: u64)
    ensures
        r == spec_add(a, b),
{
    if f_is_nan(a) || f_is_nan(b) {
        return 0x7ff8_0000_0000_0000;
    }
    if f_is_inf(a) {
        if f_is_inf(b) && f_sign(a) != f_sign(b) {
            return 0x7ff8_0000_0000_0000;
        }
        return a;
    }
    if f_is_inf(b) {
        return b;
    }
    if f_is_zero(a) && f_is_zero(b) {
        proof {
            assert(((a >> 63) & (b >> 63)) <= 1) by (bit_vector);
        }
        return (f_sign(a) & f_sign(b)) << 63;
    }
    if f_is_zero(a) {
        return b;
    }
    if f_is_zero(b) {
        return a;
    }
    let sa = f_sign(a);
    let sb = f_sign(b);
    let ma = f_mant(a);
    let mb = f_mant(b);
    let ea = f_scale(a);
    let eb = f_scale(b);
    proof {
        lemma_mant_nonzero(a);
        lemma_mant_nonzero(b);
    }
    let swap = ea < eb || (ea == eb && ma < mb);
    let (sx, mx, ex) = if swap {
        (sb, mb, eb)
    } else {
        (sa, ma, ea)
    };
    let (sy, my, ey) = if swap {
        (sa, ma, ea)
    } else {
        (sb, mb, eb)
    };
    proof {
        if ex > ey {
            if swap {
                lemma_scale_normal(b);
            } else {
                lemma_scale_normal(a);
            }
        }
    }
    let d: i64 = ex - ey;
    let mx3: u128 = (mx as u128) << 3;
    let my3: u128 = (my as u128) << 3;
    proof {
        assert(((mx as u128) << 3) == 8 * (mx as u128) && ((my as u128) << 3) == 8 * (my as u128))
            by (bit_vector)
            requires
                (mx as u128) < 0x20_0000_0000_0000u128 && (my as u128) < 0x20_0000_0000_0000u128,
        ;
    }
    let (my_al, sticky): (u128, bool) = if d >= 60 {
        (0u128, true)
    } else {
        let dh = d as u128;
        proof {
            assert((1u128 << dh) >= 1 && my3 >> dh <= my3 && (dh >= 1 ==> my3 >> dh <= my3 >> 1)
                && (dh <= 3 ==> my3 & ((((1u128 << dh) - 1)) as u128) == 0) && (4 <= dh && my3
                < 0x100_0000_0000_0000u128 ==> my3 >> dh < 0x10_0000_0000_0000u128) && (my3
                < 0x100_0000_0000_0000u128 ==> my3 >> 1 < 0x80_0000_0000_0000u128))
                by (bit_vector)
                requires
                    dh < 60 && my3 == (my as u128) << 3,
            ;
        }
        (my3 >> dh, my3 & ((((1u128 << dh) - 1)) as u128) != 0)
    };
    if sx == sy {
        f_round(sx, mx3 + my_al, ex - 3, sticky)
    } else {
        proof {
            if d > 0 {
                assert(mx3 >= 8 * 0x10_0000_0000_0000u128);
            }
            if sticky {
                assert(d >= 4);
                if d >= 60 {
                    assert(mx3 - my_al >= 2);
                } else {
                    assert(mx3 - my_al >= 8 * 0x10_0000_0000_0000u128 - 0x10_0000_0000_0000u128);
                }
            }
        }
        let m = mx3 - my_al - (if sticky {
            1u128
        } else {
            0u128
        });
        if m == 0 && !sticky {
            return 0u64;
        }
        f_round(sx, m, ex - 3, sticky)
    }
}

/// Binary64 subtraction on raw bit patterns: addition of the negated
/// second operand, as IEEE 754 defines it.
pub fn sub_bits(a: u64, b: u64) -> (r: u64)
    ensures
        r == spec_sub(a, b),
{
    add_bits(a, b ^ 0x8000_0000_0000_0000)
}

/// Binary64 ordering `a > b` on raw bit patterns: false whenever either
/// operand is NaN; zeros of both signs compare equal.
pub fn gt_bits(a: u64, b: u64) -> (r: bool)
    ensures
        r == spec_gt(a, b),
{
    if f_is_nan(a) || f_is_nan(b) {
        return false;
    }
    let maga = a & 0x7fff_ffff_ffff_ffff;
    let magb = b & 0x7fff_ffff_ffff_ffff;
    if maga == 0 && magb == 0 {
        false
    } else if f_sign(a) == 0 && f_sign(b) == 0 {
        maga > magb
    } else if f_sign(a) == 1 && f_sign(b) == 1 {
        maga < magb
    } else {
        f_sign(a) == 0
    }
}

} // verus!
