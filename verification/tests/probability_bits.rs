use digit_cnn::probability::{is_probability, NEGATIVE_ZERO, ONE};

#[test]
fn the_named_patterns_are_those_of_one_and_negative_zero() {
    assert_eq!(ONE, 1.0f64.to_bits());
    assert_eq!(NEGATIVE_ZERO, (-0.0f64).to_bits());
}

#[test]
fn numbers_in_the_unit_interval_are_probabilities() {
    for p in [0.0f64, -0.0, 0.5, 1.0, 0.25, 1e-300, f64::MIN_POSITIVE, 5e-324, 0.9999999999999999] {
        assert!(is_probability(p.to_bits()), "{}", p);
    }
}

#[test]
fn numbers_outside_the_unit_interval_are_not() {
    for p in [
        1.0000000000000002f64,
        2.0,
        1e300,
        -0.5,
        -1.0,
        -5e-324,
        f64::INFINITY,
        f64::NEG_INFINITY,
        f64::NAN,
        -f64::NAN,
        f64::MAX,
        f64::MIN,
    ] {
        assert!(!is_probability(p.to_bits()), "{}", p);
    }
}

#[test]
fn the_test_on_patterns_agrees_with_the_comparison_of_numbers() {
    // A walk over patterns of every sign and exponent.
    let mut bits: u64 = 0;
    let step: u64 = 0x0003_1415_9265_3589;
    for _ in 0..200_000 {
        let p = f64::from_bits(bits);
        assert_eq!(is_probability(bits), (0.0..=1.0).contains(&p), "{:#x}", bits);
        bits = bits.wrapping_add(step).rotate_left(7);
    }
    for bits in [ONE - 1, ONE, ONE + 1, NEGATIVE_ZERO - 1, NEGATIVE_ZERO, NEGATIVE_ZERO + 1, u64::MAX] {
        let p = f64::from_bits(bits);
        assert_eq!(is_probability(bits), (0.0..=1.0).contains(&p), "{:#x}", bits);
    }
}
