use raytracer::scalar::{Scalar, INFINITY_BITS, MINUS_ONE_BITS, NAN_BITS, ONE_BITS};

fn s(x: f32) -> Scalar {
    Scalar::from_bits(x.to_bits())
}

fn f(x: Scalar) -> f32 {
    f32::from_bits(x.bits)
}

/// Numbers of every kind: zeros, subnormals, normals around the powers of two
/// that the conversions turn on, infinities and NaNs of both signs.
fn samples() -> Vec<f32> {
    let mut v = vec![
        0.0f32,
        -0.0,
        f32::MIN_POSITIVE,
        -f32::MIN_POSITIVE,
        f32::from_bits(1),
        f32::from_bits(0x8000_0001),
        f32::from_bits(0x007f_ffff),
        1.0e-4,
        0.1,
        0.3,
        0.5,
        0.999_999_94,
        1.0,
        1.000_000_1,
        1.5,
        -1.5,
        2.0,
        -2.0,
        2.5,
        -2.5,
        3.999,
        -3.999,
        127.5,
        254.999,
        255.0,
        255.5,
        256.0,
        -255.5,
        8_388_607.5,
        8_388_608.0,
        16_777_216.0,
        -16_777_216.0,
        2_147_483_520.0,
        2_147_483_648.0,
        -2_147_483_648.0,
        -2_147_483_904.0,
        4_294_967_040.0,
        4_294_967_296.0,
        1.0e20,
        -1.0e20,
        f32::MAX,
        f32::MIN,
        f32::INFINITY,
        f32::NEG_INFINITY,
        f32::NAN,
        -f32::NAN,
        f32::from_bits(0x7f80_0001),
        f32::from_bits(0xffff_ffff),
    ];
    let mut x: f32 = 0.37;
    for _ in 0..40 {
        v.push(x);
        v.push(-x);
        x *= 3.7;
    }
    v
}

#[test]
fn lt_agrees_with_the_machine() {
    for &a in &samples() {
        for &b in &samples() {
            assert_eq!(s(a).lt(s(b)), a < b, "{a:?} < {b:?}");
        }
    }
}

#[test]
fn gt_agrees_with_the_machine() {
    for &a in &samples() {
        for &b in &samples() {
            assert_eq!(s(a).gt(s(b)), a > b, "{a:?} > {b:?}");
        }
    }
}

#[test]
fn le_agrees_with_the_machine() {
    for &a in &samples() {
        for &b in &samples() {
            assert_eq!(s(a).le(s(b)), a <= b, "{a:?} <= {b:?}");
        }
    }
}

#[test]
fn max_and_min_agree_with_the_machine_in_value() {
    for &a in &samples() {
        for &b in &samples() {
            let hi = f(s(a).max(s(b)));
            let lo = f(s(a).min(s(b)));
            if a.is_nan() && b.is_nan() {
                assert!(hi.is_nan() && lo.is_nan());
            } else {
                assert_eq!(hi, a.max(b), "max({a:?}, {b:?})");
                assert_eq!(lo, a.min(b), "min({a:?}, {b:?})");
            }
        }
    }
}

#[test]
fn max_keeps_the_first_of_two_equal_numbers() {
    assert_eq!(s(0.0).max(s(-0.0)).bits, 0);
    assert_eq!(s(-0.0).max(s(0.0)).bits, 0x8000_0000);
    assert_eq!(s(-0.0).min(s(0.0)).bits, 0x8000_0000);
}

#[test]
fn max_and_min_ignore_a_nan() {
    assert_eq!(s(f32::NAN).max(s(2.0)).bits, 2.0f32.to_bits());
    assert_eq!(s(2.0).max(s(f32::NAN)).bits, 2.0f32.to_bits());
    assert_eq!(s(f32::NAN).min(s(2.0)).bits, 2.0f32.to_bits());
    assert_eq!(s(2.0).min(s(f32::NAN)).bits, 2.0f32.to_bits());
}

#[test]
fn clamp_agrees_with_the_machine() {
    for &a in &samples() {
        let held = f(s(a).clamp(s(0.0), s(1.0)));
        if a.is_nan() {
            assert!(held.is_nan());
        } else {
            assert_eq!(held.to_bits(), a.clamp(0.0, 1.0).to_bits(), "clamp({a:?})");
        }
        let wide = f(s(a).clamp(s(-1.0), s(255.0)));
        if !a.is_nan() {
            assert_eq!(wide.to_bits(), a.clamp(-1.0, 255.0).to_bits());
        }
    }
}

#[test]
fn to_u32_agrees_with_the_machine() {
    for &a in &samples() {
        assert_eq!(s(a).to_u32(), a as u32, "{a:?} as u32");
    }
}

#[test]
fn to_u32_exact_values() {
    assert_eq!(s(0.999).to_u32(), 0);
    assert_eq!(s(1.0).to_u32(), 1);
    assert_eq!(s(799.99).to_u32(), 799);
    assert_eq!(s(-3.0).to_u32(), 0);
    assert_eq!(s(f32::NAN).to_u32(), 0);
    assert_eq!(s(f32::INFINITY).to_u32(), u32::MAX);
    assert_eq!(s(4_294_967_040.0).to_u32(), 4_294_967_040);
    assert_eq!(s(4_294_967_296.0).to_u32(), u32::MAX);
}

#[test]
fn floor_to_i32_agrees_with_the_machine() {
    for &a in &samples() {
        assert_eq!(s(a).floor_to_i32(), a.floor() as i32, "floor({a:?}) as i32");
    }
}

#[test]
fn floor_to_i32_exact_values() {
    assert_eq!(s(2.5).floor_to_i32(), 2);
    assert_eq!(s(-2.5).floor_to_i32(), -3);
    assert_eq!(s(-2.0).floor_to_i32(), -2);
    assert_eq!(s(-0.0).floor_to_i32(), 0);
    assert_eq!(s(-1.0e-30).floor_to_i32(), -1);
    assert_eq!(s(f32::NAN).floor_to_i32(), 0);
    assert_eq!(s(3.0e9).floor_to_i32(), i32::MAX);
    assert_eq!(s(-3.0e9).floor_to_i32(), i32::MIN);
    assert_eq!(s(-2_147_483_648.0).floor_to_i32(), i32::MIN);
    assert_eq!(s(f32::NEG_INFINITY).floor_to_i32(), i32::MIN);
}

#[test]
fn fract_agrees_with_the_machine() {
    for &a in &samples() {
        let part = f(s(a).fract());
        if a.is_nan() || a.is_infinite() {
            assert!(part.is_nan(), "fract({a:?})");
        } else {
            assert_eq!(part.to_bits(), a.fract().to_bits(), "fract({a:?})");
        }
    }
    // every number from 1/64 to 1024 in steps of 1/64, and its negative
    for i in 1..65536 {
        let a = i as f32 / 64.0;
        assert_eq!(s(a).fract().bits, a.fract().to_bits(), "fract({a:?})");
        assert_eq!(s(-a).fract().bits, (-a).fract().to_bits(), "fract({:?})", -a);
    }
}

#[test]
fn fract_exact_values() {
    assert_eq!(f(s(2.75).fract()), 0.75);
    assert_eq!(f(s(-2.75).fract()), -0.75);
    assert_eq!(f(s(0.25).fract()), 0.25);
    assert_eq!(s(7.0).fract().bits, 0.0f32.to_bits());
    assert_eq!(s(-7.0).fract().bits, 0.0f32.to_bits());
    assert_eq!(s(-0.0).fract().bits, 0.0f32.to_bits());
    assert_eq!(f(s(8_388_607.5).fract()), 0.5);
    assert_eq!(f(s(1.0e20).fract()), 0.0);
    assert!(f(s(f32::INFINITY).fract()).is_nan());
    assert!(f(s(f32::NAN).fract()).is_nan());
}

#[test]
fn abs_and_signum_agree_with_the_machine() {
    for &a in &samples() {
        assert_eq!(s(a).abs().bits, a.abs().to_bits(), "abs({a:?})");
        if a.is_nan() {
            assert!(f(s(a).signum()).is_nan());
        } else {
            assert_eq!(s(a).signum().bits, a.signum().to_bits(), "signum({a:?})");
        }
    }
}

#[test]
fn from_u8_is_the_exact_number() {
    for n in 0..=255u8 {
        assert_eq!(Scalar::from_u8(n).bits, (n as f32).to_bits(), "{n}");
    }
}

#[test]
fn is_nan_value_agrees_with_the_machine() {
    for &a in &samples() {
        assert_eq!(s(a).is_nan_value(), a.is_nan(), "{a:?}");
    }
}

#[test]
fn named_encodings() {
    assert_eq!(Scalar::zero().bits, 0.0f32.to_bits());
    assert_eq!(Scalar::one().bits, 1.0f32.to_bits());
    assert_eq!(Scalar::infinity().bits, f32::INFINITY.to_bits());
    assert_eq!(ONE_BITS, 1.0f32.to_bits());
    assert_eq!(MINUS_ONE_BITS, (-1.0f32).to_bits());
    assert_eq!(INFINITY_BITS, f32::INFINITY.to_bits());
    assert!(f32::from_bits(NAN_BITS).is_nan());
}
