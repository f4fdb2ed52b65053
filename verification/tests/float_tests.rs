use mandelatar_core::ieee754::{add_bits, gt_bits, mul_bits, sub_bits};
use mandelatar_core::image_params::Complex64;
use mandelatar_core::render::{escape_time, ESCAPE_LIMIT};

use rand::Rng;

/// Hardware and library agree bit for bit on every numeric result; NaN
/// payloads are the one thing IEEE 754 leaves open, so any NaN matches any
/// NaN.
fn same_pattern(ours: u64, hw: u64) -> bool {
    let ours_nan = f64::from_bits(ours).is_nan();
    let hw_nan = f64::from_bits(hw).is_nan();
    if ours_nan || hw_nan {
        ours_nan && hw_nan
    } else {
        ours == hw
    }
}

fn interesting_patterns() -> Vec<u64> {
    let mut v: Vec<u64> = vec![
        0.0f64.to_bits(),
        (-0.0f64).to_bits(),
        1.0f64.to_bits(),
        (-1.0f64).to_bits(),
        2.0f64.to_bits(),
        4.0f64.to_bits(),
        0.5f64.to_bits(),
        f64::INFINITY.to_bits(),
        f64::NEG_INFINITY.to_bits(),
        f64::NAN.to_bits(),
        f64::MAX.to_bits(),
        f64::MIN_POSITIVE.to_bits(),
        // subnormals
        1u64,
        0x000f_ffff_ffff_ffffu64,
        0x8000_0000_0000_0001u64,
        // near the overflow threshold
        f64::MAX.to_bits() - 1,
        // assorted ordinary values
        3.141592653589793f64.to_bits(),
        (-1.2e-300f64).to_bits(),
        9.9e307f64.to_bits(),
    ];
    let mut rng = rand::thread_rng();
    for _ in 0..4000 {
        v.push(rng.gen::<u64>());
    }
    for _ in 0..1000 {
        // values with small exponents, to exercise subnormal rounding
        let frac: u64 = rng.gen::<u64>() & 0xf_ffff_ffff_ffff;
        let exp: u64 = rng.gen_range(0..6);
        let sign: u64 = rng.gen_range(0..2);
        v.push((sign << 63) | (exp << 52) | frac);
    }
    v
}

#[test]
fn multiplication_matches_hardware() {
    let pats = interesting_patterns();
    for (n, &a) in pats.iter().enumerate() {
        let b = pats[(n * 7 + 13) % pats.len()];
        let hw = (f64::from_bits(a) * f64::from_bits(b)).to_bits();
        let ours = mul_bits(a, b);
        assert!(
            same_pattern(ours, hw),
            "mul {:016x} * {:016x}: ours {:016x} hw {:016x}",
            a,
            b,
            ours,
            hw
        );
    }
}

#[test]
fn addition_matches_hardware() {
    let pats = interesting_patterns();
    for (n, &a) in pats.iter().enumerate() {
        let b = pats[(n * 11 + 5) % pats.len()];
        let hw = (f64::from_bits(a) + f64::from_bits(b)).to_bits();
        let ours = add_bits(a, b);
        assert!(
            same_pattern(ours, hw),
            "add {:016x} + {:016x}: ours {:016x} hw {:016x}",
            a,
            b,
            ours,
            hw
        );
    }
}

#[test]
fn subtraction_matches_hardware() {
    let pats = interesting_patterns();
    for (n, &a) in pats.iter().enumerate() {
        let b = pats[(n * 5 + 3) % pats.len()];
        let hw = (f64::from_bits(a) - f64::from_bits(b)).to_bits();
        let ours = sub_bits(a, b);
        assert!(
            same_pattern(ours, hw),
            "sub {:016x} - {:016x}: ours {:016x} hw {:016x}",
            a,
            b,
            ours,
            hw
        );
    }
}

#[test]
fn ordering_matches_hardware() {
    let pats = interesting_patterns();
    for (n, &a) in pats.iter().enumerate() {
        let b = pats[(n * 3 + 1) % pats.len()];
        let hw = f64::from_bits(a) > f64::from_bits(b);
        assert_eq!(gt_bits(a, b), hw, "gt {:016x} > {:016x}", a, b);
    }
}

/// The plain floating-point escape loop, for cross-checking the
/// bit-pattern implementation.
fn escape_time_fp(re: f64, im: f64, limit: usize) -> Option<usize> {
    let mut zr = 0.0f64;
    let mut zi = 0.0f64;
    for i in 0..limit {
        if zr * zr + zi * zi > 4.0 {
            return Some(i);
        }
        let new_zr = zr * zr - zi * zi + re;
        let new_zi = zr * zi + zi * zr + im;
        zr = new_zr;
        zi = new_zi;
    }
    None
}

#[test]
fn origin_never_escapes() {
    let origin = Complex64 { re: 0, im: 0 };
    for limit in [1usize, 2, 10, 255, 1000] {
        assert_eq!(escape_time(origin, limit), None);
    }
}

#[test]
fn strict_boundary_at_two() {
    // |2|^2 == 4 is not strictly greater than 4, so the point (2, 0) does
    // not escape at iteration zero; its orbit 2, 6, 38... escapes once the
    // squared magnitude first exceeds four, at iteration two.
    let two = Complex64 {
        re: 2.0f64.to_bits(),
        im: 0.0f64.to_bits(),
    };
    for limit in [3usize, 10, 255] {
        assert_eq!(escape_time(two, limit), Some(2));
    }
    assert_ne!(escape_time(two, 255), Some(0));
    assert_eq!(escape_time(two, 1), None);
    assert_eq!(escape_time(two, 2), None);
}

#[test]
fn escape_time_matches_floating_point_loop() {
    let mut rng = rand::thread_rng();
    for _ in 0..2000 {
        let re: f64 = rng.gen_range(-2.5..1.5);
        let im: f64 = rng.gen_range(-2.0..2.0);
        let c = Complex64 {
            re: re.to_bits(),
            im: im.to_bits(),
        };
        assert_eq!(
            escape_time(c, ESCAPE_LIMIT),
            escape_time_fp(re, im, ESCAPE_LIMIT),
            "escape mismatch at c = ({}, {})",
            re,
            im
        );
    }
    // hostile bit patterns, NaN and infinities included
    for _ in 0..500 {
        let re: u64 = rng.gen();
        let im: u64 = rng.gen();
        let c = Complex64 { re, im };
        assert_eq!(
            escape_time(c, 64),
            escape_time_fp(f64::from_bits(re), f64::from_bits(im), 64),
            "escape mismatch at bits ({:016x}, {:016x})",
            re,
            im
        );
    }
}
