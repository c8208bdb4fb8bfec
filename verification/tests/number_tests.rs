use afd::number::Double;

fn d(value: f64) -> Double {
    Double::from_bits(value.to_bits())
}

fn samples() -> Vec<f64> {
    vec![
        0.0,
        -0.0,
        5e-324,
        -5e-324,
        f64::MIN_POSITIVE,
        0.1,
        0.7,
        0.9,
        1.0,
        -1.0,
        1.5,
        100.0,
        1e300,
        -1e300,
        f64::MAX,
        f64::MIN,
        f64::INFINITY,
        f64::NEG_INFINITY,
        f64::NAN,
        -f64::NAN,
    ]
}

#[test]
fn comparisons_agree_with_the_machine() {
    for &a in &samples() {
        assert_eq!(d(a).is_nan(), a.is_nan());
        assert_eq!(d(a).is_finite(), a.is_finite());
        for &b in &samples() {
            assert_eq!(d(a).lt(d(b)), a < b, "{a} < {b}");
            assert_eq!(d(a).le(d(b)), a <= b, "{a} <= {b}");
            assert_eq!(d(a).gt(d(b)), a > b, "{a} > {b}");
            assert_eq!(d(a).ge(d(b)), a >= b, "{a} >= {b}");
            assert_eq!(d(a).same_number(d(b)), a == b, "{a} == {b}");
        }
    }
}

#[test]
fn least_and_clamp_agree_with_the_machine() {
    for &a in &samples() {
        for &b in &samples() {
            let least = f64::from_bits(d(a).min(d(b)).to_bits());
            let wanted = a.min(b);
            assert!(least == wanted || (least.is_nan() && wanted.is_nan()), "min({a}, {b})");
        }
        let held = f64::from_bits(d(a).clamp(d(0.0), d(1.0)).to_bits());
        let wanted = a.clamp(0.0, 1.0);
        assert!(held.to_bits() == wanted.to_bits() || (held.is_nan() && wanted.is_nan()));
        let percent = f64::from_bits(d(a).clamp(d(0.0), d(100.0)).to_bits());
        let wanted = a.clamp(0.0, 100.0);
        assert!(percent.to_bits() == wanted.to_bits() || (percent.is_nan() && wanted.is_nan()));
    }
    assert_eq!(d(0.3).min(d(0.3)).to_bits(), 0.3f64.to_bits());
    assert_eq!(Double::zero().to_bits(), 0.0f64.to_bits());
    assert_eq!(Double::one().to_bits(), 1.0f64.to_bits());
    assert_eq!(Double::hundred().to_bits(), 100.0f64.to_bits());
    assert_eq!(Double::infinity().to_bits(), f64::INFINITY.to_bits());
}

#[test]
fn integers_round_to_the_nearest_number() {
    let mut values: Vec<u64> = vec![0, 1, 2, 3, 5, 10, 123, 255, 256, 1 << 52, u64::MAX];
    for shift in 50..64u32 {
        let base = 1u64 << shift;
        for delta in 0..40u64 {
            values.push(base.wrapping_add(delta));
            values.push(base.wrapping_sub(delta));
            values.push(base.wrapping_add(delta << (shift - 53).min(11)));
        }
    }
    values.push((1 << 53) + 1);
    values.push((1 << 53) + 2);
    values.push((1 << 53) + 3);
    values.push((1 << 54) + 2);
    values.push((1 << 54) + 6);
    values.push(u64::MAX - 1023);
    values.push(u64::MAX - 1024);
    values.push(0x7FFF_FFFF_FFFF_FC00);
    values.push(0x7FFF_FFFF_FFFF_FDFF);
    values.push(0x7FFF_FFFF_FFFF_FE00);
    for value in values {
        assert_eq!(Double::from_u64(value).to_bits(), (value as f64).to_bits(), "{value}");
    }
    for value in [0i64, 1, -1, 5, -5, i64::MAX, i64::MIN, i64::MIN + 1, -(1 << 53) - 1, (1 << 53) + 1]
    {
        assert_eq!(Double::from_i64(value).to_bits(), (value as f64).to_bits(), "{value}");
    }
}
