use bevy_openusd::ieee::{Double, Single};

fn single(x: f32) -> Single {
    Single { bits: x.to_bits() }
}

fn double(x: f64) -> Double {
    Double { bits: x.to_bits() }
}

const SINGLES: [f32; 12] = [
    0.0, -0.0, 1.0, -1.0, 1.5, -1.5, 1e-40, -1e-40, f32::INFINITY, f32::NEG_INFINITY, f32::MAX,
    f32::NAN,
];

const DOUBLES: [f64; 12] = [
    0.0, -0.0, 1.0, -1.0, 1e-6, -1e-6, 1e-310, -1e-310, f64::INFINITY, f64::NEG_INFINITY, f64::MAX,
    f64::NAN,
];

#[test]
fn narrowing_matches_the_cast() {
    let samples: [f64; 20] = [
        0.0, -0.0, 1.0, -1.5, 0.1, 1e-6, 1e300, -1e300, 1e-40, -1e-40, 1e-45, 7e-46, 7.1e-46,
        3.4028235e38, 3.4028236e38, 16777217.0, 16777219.0, 1.1754943e-38, f64::INFINITY,
        f64::NEG_INFINITY,
    ];
    for x in samples {
        assert_eq!(double(x).narrow().bits, (x as f32).to_bits(), "{x}");
    }
    assert!(double(f64::NAN).narrow().is_nan());
}

#[test]
fn narrowing_goes_to_the_nearest_and_then_to_the_even() {
    // Halfway between two singles, and just above the middle.
    let step: f64 = 2f64.powi(-24);
    assert_eq!(double(1.0 + step).narrow(), single(1.0));
    assert_eq!(double(1.0 + 3.0 * step).narrow(), single(1.0 + 4.0 * step as f32));
    assert_eq!(double(1.0 + step + 2f64.powi(-50)).narrow(), single(1.0 + 2.0 * step as f32));
}

#[test]
fn integers_convert_as_the_cast_does() {
    let samples: [i64; 14] = [
        0, 1, -1, 2, 255, -256, 16777215, 16777216, 16777217, 16777219, -16777217, i64::MAX,
        i64::MIN, 33554431,
    ];
    for i in samples {
        assert_eq!(Single::from_int(i).bits, (i as f32).to_bits(), "{i}");
    }
}

#[test]
fn singles_compare_as_numbers() {
    for x in SINGLES {
        assert_eq!(single(x).is_nan(), x.is_nan());
        assert_eq!(single(x).abs().bits, x.abs().to_bits());
        for y in SINGLES {
            assert_eq!(single(x).less(single(y)), x < y, "{x} {y}");
        }
    }
}

#[test]
fn the_larger_of_two_passes_over_a_nan() {
    assert_eq!(single(1.0).max(single(2.0)), single(2.0));
    assert_eq!(single(2.0).max(single(1.0)), single(2.0));
    assert_eq!(single(f32::NAN).max(single(2.0)), single(2.0));
    assert_eq!(single(2.0).max(single(f32::NAN)), single(2.0));
}

#[test]
fn doubles_compare_as_numbers() {
    for x in DOUBLES {
        assert_eq!(double(x).abs().bits, x.abs().to_bits());
        for y in DOUBLES {
            assert_eq!(double(x).less(double(y)), x < y, "{x} {y}");
            assert_eq!(double(x).equals(double(y)), x == y, "{x} {y}");
        }
    }
}
