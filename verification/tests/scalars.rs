use render3d::maths::scalar;
use render3d::maths::vec::Vec3d;

fn samples() -> Vec<f32> {
    vec![
        0.0,
        -0.0,
        1.0,
        -1.0,
        0.1,
        -0.1,
        0.5,
        2.0,
        3.5,
        -3.5,
        1.0e-40,
        -1.0e-40,
        f32::MIN_POSITIVE,
        f32::MAX,
        f32::MIN,
        f32::INFINITY,
        f32::NEG_INFINITY,
        f32::NAN,
        -f32::NAN,
        f32::from_bits(0x7f80_0001),
        f32::from_bits(0xffff_ffff),
        6.2831855,
        100.0,
    ]
}

#[test]
fn constants_are_the_patterns_of_their_numbers() {
    assert_eq!(scalar::ZERO, 0.0f32.to_bits());
    assert_eq!(scalar::ONE, 1.0f32.to_bits());
    assert_eq!(scalar::TENTH, 0.1f32.to_bits());
    assert_eq!(scalar::FULL_TURN, (2.0f32 * std::f32::consts::PI).to_bits());
    assert_eq!(scalar::SIGN, (-0.0f32).to_bits());
    assert_eq!(scalar::INFINITY, f32::INFINITY.to_bits());
    assert_eq!(scalar::WIDE_SIGN, (-0.0f64).to_bits());
    assert_eq!(scalar::WIDE_INFINITY, f64::INFINITY.to_bits());
}

#[test]
fn is_nan_agrees_with_the_machine() {
    for a in samples() {
        assert_eq!(scalar::is_nan(a.to_bits()), a.is_nan(), "{a}");
    }
}

#[test]
fn is_zero_holds_of_both_zeros_only() {
    for a in samples() {
        assert_eq!(scalar::is_zero(a.to_bits()), a == 0.0, "{a}");
    }
}

#[test]
fn less_than_agrees_with_the_machine() {
    for a in samples() {
        for b in samples() {
            assert_eq!(scalar::less_than(a.to_bits(), b.to_bits()), a < b, "{a} < {b}");
        }
    }
}

#[test]
fn equals_agrees_with_the_machine() {
    for a in samples() {
        for b in samples() {
            assert_eq!(scalar::equals(a.to_bits(), b.to_bits()), a == b, "{a} == {b}");
        }
    }
}

#[test]
fn ordinal_grows_with_the_number() {
    assert_eq!(scalar::ordinal_of(0.0f32.to_bits()), 0);
    assert_eq!(scalar::ordinal_of((-0.0f32).to_bits()), 0);
    assert_eq!(scalar::ordinal_of(1.0f32.to_bits()), 0x3f80_0000);
    assert_eq!(scalar::ordinal_of((-1.0f32).to_bits()), -0x3f80_0000);
    for a in samples() {
        for b in samples() {
            if !a.is_nan() && !b.is_nan() {
                let oa = scalar::ordinal_of(a.to_bits());
                let ob = scalar::ordinal_of(b.to_bits());
                assert_eq!(oa < ob, a < b, "{a} {b}");
                assert_eq!(oa == ob, a == b, "{a} {b}");
            }
        }
    }
}

#[test]
fn negate_flips_the_sign_bit() {
    for a in samples() {
        assert_eq!(scalar::negate(a.to_bits()), (-a).to_bits(), "{a}");
    }
    assert_eq!(scalar::negate(0x3f80_0000), 0xbf80_0000);
    assert_eq!(scalar::negate(0), 0x8000_0000);
}

fn assert_halves(bits: u32) {
    let x = f32::from_bits(bits);
    let half = scalar::halve(bits);
    if x.is_nan() {
        assert!(f32::from_bits(half).is_nan(), "{bits:#x}");
    } else {
        assert_eq!(half, (x / 2.0).to_bits(), "{bits:#x}");
        assert_eq!(half, (x * 0.5).to_bits(), "{bits:#x}");
    }
}

#[test]
fn halve_agrees_with_the_machine_on_the_smallest_numbers() {
    for m in 0..0x0100_1000u32 {
        assert_halves(m);
        assert_halves(m | 0x8000_0000);
    }
}

#[test]
fn halve_agrees_with_the_machine_across_the_range() {
    let mut bits: u32 = 0;
    loop {
        assert_halves(bits);
        match bits.checked_add(1021) {
            Some(next) => bits = next,
            None => break,
        }
    }
    for a in samples() {
        assert_halves(a.to_bits());
    }
    for bits in [0x7f7f_ffffu32, 0x7f80_0000, 0x7f80_0001, 0xff80_0000, 0x0080_0000, 0x00ff_ffff,
        0x0100_0000, 0x0100_0001, 0x007f_ffff, 1, 2, 3, 0x8000_0001, 0x8000_0003]
    {
        assert_halves(bits);
    }
    assert_eq!(scalar::halve(1.0f32.to_bits()), 0.5f32.to_bits());
    assert_eq!(scalar::halve(1), 0);
    assert_eq!(scalar::halve(3), 2);
    assert_eq!(scalar::halve(5), 2);
}

#[test]
fn larger_takes_the_greater_and_drops_what_is_no_number() {
    let nan = f32::NAN.to_bits();
    assert_eq!(scalar::larger(2.0f32.to_bits(), 1.0f32.to_bits()), 2.0f32.to_bits());
    assert_eq!(scalar::larger(1.0f32.to_bits(), 2.0f32.to_bits()), 2.0f32.to_bits());
    assert_eq!(scalar::larger((-1.0f32).to_bits(), (-2.0f32).to_bits()), (-1.0f32).to_bits());
    assert_eq!(scalar::larger(nan, 1.0f32.to_bits()), 1.0f32.to_bits());
    assert_eq!(scalar::larger(1.0f32.to_bits(), nan), 1.0f32.to_bits());
    assert!(scalar::is_nan(scalar::larger(nan, nan)));
    for a in samples() {
        for b in samples() {
            if a != b && !a.is_nan() && !b.is_nan() {
                assert_eq!(scalar::larger(a.to_bits(), b.to_bits()), a.max(b).to_bits());
            }
        }
    }
}

#[test]
fn divisor_is_one_for_a_zero() {
    assert_eq!(scalar::divisor(0.0f32.to_bits()), 1.0f32.to_bits());
    assert_eq!(scalar::divisor((-0.0f32).to_bits()), 1.0f32.to_bits());
    assert_eq!(scalar::divisor(2.5f32.to_bits()), 2.5f32.to_bits());
    assert_eq!(scalar::divisor((-4.0f32).to_bits()), (-4.0f32).to_bits());
    let nan = f32::NAN.to_bits();
    assert_eq!(scalar::divisor(nan), nan);
}

#[test]
fn wide_comparison_agrees_with_the_machine() {
    let values = [
        0.0f64,
        -0.0,
        1.0,
        -1.0,
        199.999,
        200.0,
        200.000001,
        255.0,
        f64::INFINITY,
        f64::NEG_INFINITY,
        f64::NAN,
        -f64::NAN,
        5.0e-324,
    ];
    for a in values {
        assert_eq!(scalar::wide_is_nan(a.to_bits()), a.is_nan());
        for b in values {
            assert_eq!(scalar::wide_greater_than(a.to_bits(), b.to_bits()), a > b, "{a} > {b}");
        }
    }
    assert_eq!(scalar::wide_ordinal_of(1.0f64.to_bits()), 0x3ff0_0000_0000_0000);
    assert_eq!(scalar::wide_ordinal_of((-1.0f64).to_bits()), -0x3ff0_0000_0000_0000);
}

#[test]
fn vector_constructors_place_their_components() {
    let v = Vec3d::new(1.5f32.to_bits(), 2.5f32.to_bits(), 3.5f32.to_bits());
    assert_eq!(f32::from_bits(v.x), 1.5);
    assert_eq!(f32::from_bits(v.y), 2.5);
    assert_eq!(f32::from_bits(v.z), 3.5);
    assert_eq!(Vec3d::diag(7.0f32.to_bits()), Vec3d::new(7.0f32.to_bits(), 7.0f32.to_bits(), 7.0f32.to_bits()));
    assert_eq!(v.copy(), v);
    let zero = 0.0f32.to_bits();
    let one = 1.0f32.to_bits();
    assert_eq!(Vec3d::origin(), Vec3d::new(zero, zero, zero));
    assert_eq!(Vec3d::unit(), Vec3d::new(one, one, one));
    assert_eq!(Vec3d::unit_x(), Vec3d::new(one, zero, zero));
    assert_eq!(Vec3d::unit_y(), Vec3d::new(zero, one, zero));
    assert_eq!(Vec3d::unit_z(), Vec3d::new(zero, zero, one));
}

#[test]
fn half_of_a_vector_halves_each_component() {
    let v = Vec3d::new(3.0f32.to_bits(), (-0.5f32).to_bits(), 0.0f32.to_bits());
    assert_eq!(v.half(), Vec3d::new(1.5f32.to_bits(), (-0.25f32).to_bits(), 0.0f32.to_bits()));
}

#[test]
fn vector_equality_is_that_of_the_numbers() {
    let p = |x: f32, y: f32, z: f32| Vec3d::new(x.to_bits(), y.to_bits(), z.to_bits());
    assert!(p(1.0, 2.0, 3.0).equals(&p(1.0, 2.0, 3.0)));
    assert!(!p(1.0, 2.0, 3.0).equals(&p(1.0, 2.0, 3.0000002)));
    assert!(!p(1.0, 2.0, 3.0).equals(&p(1.0, 2.5, 3.0)));
    assert!(!p(1.0, 2.0, 3.0).equals(&p(-1.0, 2.0, 3.0)));
    assert!(p(0.0, 0.0, 0.0).equals(&p(-0.0, 0.0, -0.0)));
    assert!(!p(f32::NAN, 0.0, 0.0).equals(&p(f32::NAN, 0.0, 0.0)));
}
