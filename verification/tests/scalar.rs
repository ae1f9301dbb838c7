use pool_table::gravity::{ZGravity, DRAG_FACTOR_BITS};
use pool_table::scalar::{Scalar, Vector, WHOLE_LIMIT};

fn scalar(value: f32) -> Scalar {
    Scalar::from_bits(value.to_bits())
}

fn samples() -> Vec<f32> {
    vec![
        0.0,
        -0.0,
        f32::MIN_POSITIVE,
        -f32::MIN_POSITIVE,
        f32::from_bits(1),
        f32::from_bits(0x8000_0001),
        1.0e-20,
        0.3,
        -0.3,
        1.0,
        -1.0,
        40.0,
        120.0,
        149.99998,
        150.0,
        -150.0,
        150.00002,
        200.0,
        -200.0,
        12119.999,
        12120.0,
        18559.998,
        18560.0,
        18560.002,
        1.0e30,
        f32::MAX,
        f32::MIN,
        f32::INFINITY,
        f32::NEG_INFINITY,
        f32::NAN,
        -f32::NAN,
    ]
}

#[test]
fn bits_round_trip() {
    for value in samples() {
        assert_eq!(scalar(value).to_bits(), value.to_bits());
    }
}

#[test]
fn zero_is_positive_zero() {
    assert_eq!(Scalar::zero().to_bits(), 0.0f32.to_bits());
    assert_eq!(Vector::zero(), Vector::new(scalar(0.0), scalar(0.0)));
}

#[test]
fn from_whole_gives_the_float_of_the_number() {
    let mut numbers: Vec<u32> = vec![
        0, 1, 2, 3, 7, 8, 9, 150, 200, 240, 6420, 7560, 12120, 18560, 65535, 65536, 65537,
        0x7f_ffff, 0x80_0000, 0x80_0001, 0xff_fffe, 0xff_ffff,
    ];
    let mut n: u32 = 1;
    while n < WHOLE_LIMIT {
        numbers.push(n);
        numbers.push(n - 1);
        n = n * 2;
    }
    let mut k: u32 = 0;
    while k < WHOLE_LIMIT {
        numbers.push(k);
        k = k + 9973;
    }
    for number in numbers {
        assert_eq!(Scalar::from_whole(number).to_bits(), (number as f32).to_bits(), "{}", number);
    }
}

#[test]
fn is_nan_agrees_with_floats() {
    for value in samples() {
        assert_eq!(scalar(value).is_nan(), value.is_nan(), "{}", value);
    }
}

#[test]
fn is_zero_agrees_with_floats() {
    for value in samples() {
        assert_eq!(scalar(value).is_zero(), value == 0.0, "{}", value);
    }
}

#[test]
fn abs_lt_agrees_with_floats() {
    for value in samples() {
        for limit in samples() {
            assert_eq!(
                scalar(value).abs_lt(&scalar(limit)),
                value.abs() < limit.abs(),
                "{} {}",
                value,
                limit
            );
        }
    }
}

#[test]
fn is_positive_below_agrees_with_floats() {
    for value in samples() {
        for limit in samples() {
            assert_eq!(
                scalar(value).is_positive_below(&scalar(limit)),
                value > 0.0 && value < limit,
                "{} {}",
                value,
                limit
            );
        }
    }
}

#[test]
fn vector_is_zero_needs_both_components() {
    assert!(Vector::new(scalar(0.0), scalar(-0.0)).is_zero());
    assert!(!Vector::new(scalar(0.0), scalar(0.1)).is_zero());
    assert!(!Vector::new(scalar(-3.0), scalar(0.0)).is_zero());
    assert!(!Vector::new(scalar(f32::NAN), scalar(0.0)).is_zero());
}

#[test]
fn vector_is_within_needs_both_components() {
    let limit = Scalar::from_whole(150);
    assert!(Vector::new(scalar(120.0), scalar(40.0)).is_within(&limit));
    assert!(Vector::new(scalar(-149.0), scalar(149.0)).is_within(&limit));
    assert!(!Vector::new(scalar(200.0), scalar(10.0)).is_within(&limit));
    assert!(!Vector::new(scalar(10.0), scalar(-200.0)).is_within(&limit));
    assert!(!Vector::new(scalar(150.0), scalar(0.0)).is_within(&limit));
    assert!(!Vector::new(scalar(f32::NAN), scalar(0.0)).is_within(&limit));
}

#[test]
fn drag_factor_is_the_tuned_one() {
    let gravity = ZGravity::new();
    assert_eq!(DRAG_FACTOR_BITS, (-0.86f32).to_bits());
    assert_eq!(gravity.factor.to_bits(), (-0.86f32).to_bits());
    let factor = f32::from_bits(gravity.factor.to_bits());
    assert!(factor < 0.0);
    assert!(factor.abs() > 0.0 && factor.abs() < 1.0);
}
