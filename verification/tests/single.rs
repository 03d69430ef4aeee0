use joya::single::{abs, clamp_to_unit, is_at_least, is_below, is_sum_in_unit, ONE};

const NUMBERS: [f32; 13] = [
    0.0,
    -0.0,
    1.0,
    -1.0,
    0.5,
    0.499,
    1.0001,
    1e-40,
    -1e-40,
    f32::INFINITY,
    f32::NEG_INFINITY,
    f32::NAN,
    f32::MAX,
];

#[test]
fn patterns_compare_as_the_numbers_do() {
    for a in NUMBERS {
        for b in NUMBERS {
            assert_eq!(is_below(a.to_bits(), b.to_bits()), a < b, "{a} < {b}");
            assert_eq!(is_at_least(a.to_bits(), b.to_bits()), a >= b, "{a} >= {b}");
        }
        assert_eq!(abs(a.to_bits()), a.abs().to_bits());
    }
    assert_eq!(f32::from_bits(ONE), 1.0);
}

#[test]
fn clamping_agrees_with_std() {
    for a in NUMBERS {
        let clamped = a.clamp(0.0, 1.0);
        assert_eq!(clamp_to_unit(a.to_bits()), clamped.to_bits(), "{a}");
        assert_eq!(clamp_to_unit(clamp_to_unit(a.to_bits())), clamp_to_unit(a.to_bits()));
    }
}

#[test]
fn sums_are_exact() {
    let unit = [
        0.0f32, -0.0, 1e-45, 1e-40, 1e-9, 0.01, 0.05, 0.1, 0.25, 0.3, 0.49999997, 0.5, 0.50000006,
        0.7, 0.75, 0.95, 0.99999994, 1.0,
    ];
    for a in unit {
        for b in unit {
            // What is missing to 1.0 from 0.5 on is exact, and so is the comparison.
            let (large, small) = if a >= b { (a, b) } else { (b, a) };
            let within = large < 0.5 || small <= 1.0 - large;
            assert_eq!(is_sum_in_unit(a.to_bits(), b.to_bits()), within, "{a} + {b}");
        }
        for other in [-0.5f32, 1.5, f32::NAN, f32::INFINITY] {
            assert!(!is_sum_in_unit(a.to_bits(), other.to_bits()));
            assert!(!is_sum_in_unit(other.to_bits(), a.to_bits()));
        }
    }
}
