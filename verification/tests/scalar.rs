use tuot::scalar::Scalar;

fn s(x: f32) -> Scalar {
    Scalar::from_bits(x.to_bits())
}

fn samples() -> Vec<f32> {
    vec![
        0.0,
        -0.0,
        1.0,
        -1.0,
        0.5,
        -0.5,
        f32::EPSILON,
        -f32::EPSILON,
        f32::MIN_POSITIVE,
        1.0e-40,
        -1.0e-40,
        3.25,
        -7.75,
        255.0,
        256.0,
        f32::MAX,
        f32::MIN,
        f32::INFINITY,
        f32::NEG_INFINITY,
        f32::NAN,
        -f32::NAN,
    ]
}

#[test]
fn comparisons_agree_with_the_hardware() {
    for &a in samples().iter() {
        for &b in samples().iter() {
            assert_eq!(s(a).lt(s(b)), a < b, "{} < {}", a, b);
            assert_eq!(s(a).le(s(b)), a <= b, "{} <= {}", a, b);
            assert_eq!(s(a).gt(s(b)), a > b, "{} > {}", a, b);
            assert_eq!(s(a).ge(s(b)), a >= b, "{} >= {}", a, b);
        }
    }
}

#[test]
fn nan_is_recognised() {
    for &a in samples().iter() {
        assert_eq!(s(a).is_nan(), a.is_nan());
    }
}

#[test]
fn abs_and_neg_agree_with_the_hardware() {
    for &a in samples().iter() {
        assert_eq!(s(a).abs().to_bits(), a.abs().to_bits());
        assert_eq!(s(a).neg().to_bits(), (-a).to_bits());
    }
}

#[test]
fn min_and_max_agree_with_the_hardware_in_value() {
    for &a in samples().iter() {
        for &b in samples().iter() {
            let lo = f32::from_bits(s(a).min(s(b)).to_bits());
            let hi = f32::from_bits(s(a).max(s(b)).to_bits());
            if a.is_nan() && b.is_nan() {
                assert!(lo.is_nan() && hi.is_nan());
            } else {
                assert_eq!(lo, a.min(b));
                assert_eq!(hi, a.max(b));
            }
        }
    }
}

#[test]
fn clamp_unit_holds_a_value_between_zero_and_one() {
    assert_eq!(s(0.25).clamp_unit().to_bits(), 0.25f32.to_bits());
    assert_eq!(s(1.5).clamp_unit().to_bits(), 1.0f32.to_bits());
    assert_eq!(s(-3.0).clamp_unit().to_bits(), 0.0f32.to_bits());
    assert_eq!(s(f32::NAN).clamp_unit().to_bits(), 1.0f32.to_bits());
    assert_eq!(s(f32::INFINITY).clamp_unit().to_bits(), 1.0f32.to_bits());
    for &a in samples().iter() {
        let got = f32::from_bits(s(a).clamp_unit().to_bits());
        assert_eq!(got, a.min(1.0).max(0.0));
    }
}

#[test]
fn order_key_orders_as_the_values_do() {
    assert_eq!(s(0.0).order_key(), 0);
    assert_eq!(s(-0.0).order_key(), 0);
    assert_eq!(s(1.0).order_key(), 0x3f80_0000);
    assert_eq!(s(-1.0).order_key(), -0x3f80_0000);
    assert!(s(-2.0).order_key() < s(-1.0).order_key());
    assert!(s(1.0).order_key() < s(2.0).order_key());
}
