use raytracer::scalar::Scalar;

fn s(x: f32) -> Scalar {
    Scalar::from_bits(x.to_bits())
}

#[test]
fn comparisons_agree_with_the_machine() {
    let values = [
        0.0f32,
        -0.0,
        1.0,
        -1.0,
        0.001,
        -0.001,
        1.0e-40,
        -1.0e-40,
        3.5,
        -3.5,
        f32::MAX,
        f32::MIN,
        f32::MIN_POSITIVE,
        f32::INFINITY,
        f32::NEG_INFINITY,
        f32::NAN,
        -f32::NAN,
    ];
    for &a in values.iter() {
        for &b in values.iter() {
            assert_eq!(s(a).lt(s(b)), a < b, "{} < {}", a, b);
            assert_eq!(s(a).le(s(b)), a <= b, "{} <= {}", a, b);
            assert_eq!(s(a).gt(s(b)), a > b, "{} > {}", a, b);
            assert_eq!(s(a).ge(s(b)), a >= b, "{} >= {}", a, b);
            assert_eq!(s(a).same(s(b)), a == b, "{} == {}", a, b);
        }
        assert_eq!(s(a).is_nan(), a.is_nan());
        assert_eq!(s(a).is_finite(), a.is_finite());
        assert_eq!(s(a).neg().to_bits(), (-a).to_bits());
        assert_eq!(s(a).abs().to_bits(), a.abs().to_bits());
    }
}

#[test]
fn constants_are_the_patterns_of_their_numbers() {
    assert_eq!(Scalar::zero().to_bits(), 0.0f32.to_bits());
    assert_eq!(Scalar::one().to_bits(), 1.0f32.to_bits());
    assert_eq!(raytracer::scalar::INFINITY_BITS, f32::INFINITY.to_bits());
    assert_eq!(raytracer::scalar::SIGN_BIT, (-0.0f32).to_bits());
}

#[test]
fn clamp_brings_numbers_into_the_unit_range() {
    assert_eq!(s(0.5).clamp_unit(), s(0.5));
    assert_eq!(s(0.0).clamp_unit(), s(0.0));
    assert_eq!(s(1.0).clamp_unit(), s(1.0));
    assert_eq!(s(1.0000001).clamp_unit(), s(1.0));
    assert_eq!(s(2.1).clamp_unit(), s(1.0));
    assert_eq!(s(f32::INFINITY).clamp_unit(), s(1.0));
    assert_eq!(s(-0.5).clamp_unit(), s(0.0));
    assert_eq!(s(f32::NEG_INFINITY).clamp_unit(), s(0.0));
    assert_eq!(s(f32::NAN).clamp_unit(), s(0.0));
    for &x in [0.25f32, -3.0, 7.5, 1.0e-40, -1.0e-40, 0.999].iter() {
        assert_eq!(f32::from_bits(s(x).clamp_unit().to_bits()), x.clamp(0.0, 1.0));
    }
}

#[test]
fn positive_part_is_the_larger_of_the_number_and_zero() {
    assert_eq!(s(0.5).positive_part(), s(0.5));
    assert_eq!(s(7.5).positive_part(), s(7.5));
    assert_eq!(s(0.0).positive_part(), s(0.0));
    assert_eq!(s(-0.5).positive_part(), s(0.0));
    assert_eq!(s(f32::NEG_INFINITY).positive_part(), s(0.0));
    assert_eq!(s(f32::INFINITY).positive_part(), s(f32::INFINITY));
    assert_eq!(s(f32::NAN).positive_part(), s(0.0));
    for &x in [0.25f32, -3.0, 7.5, 1.0e-40, -1.0e-40, f32::NAN].iter() {
        assert_eq!(f32::from_bits(s(x).positive_part().to_bits()), x.max(0.0));
    }
}
