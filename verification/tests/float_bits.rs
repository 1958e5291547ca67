use aicacia_db::float_bits::{
    canonical_float_bits, compare_floats, f64_bits_eq, f64_bits_is_nan, i64_to_f64_bits,
    u64_to_f64_bits,
};

fn samples() -> Vec<u64> {
    let mut out = vec![
        0,
        1,
        2,
        3,
        (1 << 52) - 1,
        1 << 52,
        (1 << 53) - 1,
        1 << 53,
        (1 << 53) + 1,
        (1 << 53) + 2,
        (1 << 53) + 3,
        (1 << 54) + 2,
        (1 << 54) + 6,
        u64::MAX,
        u64::MAX - 1024,
        u64::MAX - 2048,
        1 << 63,
        (1 << 63) + 1024,
        (1 << 63) + 1025,
        i64::MAX as u64,
    ];
    let mut x: u64 = 0x9e37_79b9_7f4a_7c15;
    for _ in 0..2000 {
        x = x.wrapping_mul(6364136223846793005).wrapping_add(1442695040888963407);
        out.push(x >> (x % 64));
    }
    out
}

#[test]
fn unsigned_integers_round_like_casts() {
    for a in samples() {
        assert_eq!(u64_to_f64_bits(a), (a as f64).to_bits(), "value {}", a);
    }
}

#[test]
fn signed_integers_round_like_casts() {
    let mut values = vec![i64::MIN, i64::MIN + 1, i64::MAX, -1, 0, 1, -(1 << 53) - 1];
    for a in samples() {
        values.push(a as i64);
    }
    for i in values {
        assert_eq!(i64_to_f64_bits(i), (i as f64).to_bits(), "value {}", i);
    }
}

fn floats() -> Vec<f64> {
    vec![
        0.0,
        -0.0,
        1.0,
        -1.0,
        0.5,
        -2.5,
        1e300,
        -1e300,
        f64::MIN_POSITIVE,
        5e-324,
        -5e-324,
        f64::INFINITY,
        f64::NEG_INFINITY,
        f64::NAN,
        -f64::NAN,
        f64::from_bits(0x7ff0_0000_0000_0001),
        f64::MAX,
        f64::MIN,
    ]
}

#[test]
fn float_equality_follows_ieee() {
    for a in floats() {
        assert_eq!(f64_bits_is_nan(a.to_bits()), a.is_nan());
        for b in floats() {
            assert_eq!(f64_bits_eq(a.to_bits(), b.to_bits()), a == b, "{} == {}", a, b);
        }
    }
}

#[test]
fn float_comparison_puts_nan_last() {
    for a in floats() {
        for b in floats() {
            let expected: i8 = if a == b {
                0
            } else if a.is_nan() {
                if b.is_nan() { 0 } else { 1 }
            } else if b.is_nan() {
                -1
            } else if a < b {
                -1
            } else {
                1
            };
            assert_eq!(compare_floats(a.to_bits(), b.to_bits()), expected, "{} vs {}", a, b);
        }
    }
}

#[test]
fn canonical_bits_merge_zeros_and_nans() {
    assert_eq!(canonical_float_bits((-0.0f64).to_bits()), 0);
    assert_eq!(canonical_float_bits(0.0f64.to_bits()), 0);
    assert_eq!(canonical_float_bits((-f64::NAN).to_bits()), f64::NAN.to_bits());
    assert_eq!(canonical_float_bits(1.5f64.to_bits()), 1.5f64.to_bits());
    assert_eq!(canonical_float_bits(f64::INFINITY.to_bits()), f64::INFINITY.to_bits());
}
