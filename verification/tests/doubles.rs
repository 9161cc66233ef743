//! Double-precision numbers by their bits, held against the machine's own.

use boom_ztf::utils::double::Double;

fn d(v: f64) -> Double {
    Double { bits: v.to_bits() }
}

fn samples() -> Vec<f64> {
    let mut v = vec![
        0.0, -0.0, 1.0, -1.0, 0.5, 1.5, 2.5, 255.0, 255.9, 256.0, -0.9, 1e300, -1e300, 1e-300,
        4.9e-324, 1e-40, 1.2e-38, 1.17549435e-38, 7e-46, 1.4e-45, 2.1e-45, 3.4028235e38,
        3.4028235677973366e38, 3.5e38, 9.2e18, 9.3e18, -9.3e18, 16777217.0, 0.1, 0.76,
        f64::INFINITY, f64::NEG_INFINITY, f64::NAN, -f64::NAN, f64::MAX, f64::MIN_POSITIVE,
    ];
    let mut x: u64 = 0x9e37_79b9_7f4a_7c15;
    let mut i = 0;
    while i < 400 {
        x ^= x << 13;
        x ^= x >> 7;
        x ^= x << 17;
        v.push(f64::from_bits(x));
        // Numbers near the limits of single precision.
        v.push(f64::from_bits((x & 0x800f_ffff_ffff_ffff) | ((860 + (x >> 52) % 45) << 52)));
        v.push(f64::from_bits((x & 0x800f_ffff_ffff_ffff) | ((1010 + (x >> 52) % 100) << 52)));
        i += 1;
    }
    v
}

#[test]
fn comparisons_agree_with_the_machine() {
    for a in samples() {
        for b in [0.0, -0.0, 1.0, -1.0, 12.0, f64::NAN, f64::INFINITY, 1e-310] {
            assert_eq!(d(a).less_than(d(b)), a < b, "{} {}", a, b);
            assert_eq!(d(a).at_most(d(b)), a <= b, "{} {}", a, b);
            assert_eq!(d(a).equals(d(b)), a == b, "{} {}", a, b);
            assert_eq!(
                d(a).total_order().cmp(&d(b).total_order()),
                a.total_cmp(&b),
                "{} {}",
                a,
                b
            );
        }
        assert_eq!(d(a).is_nan(), a.is_nan());
        assert_eq!(d(a).abs().bits, a.abs().to_bits());
    }
}

#[test]
fn truncation_agrees_with_the_machine() {
    for a in samples() {
        assert_eq!(d(a).truncate(), a as i64, "{}", a);
        assert_eq!(d(a).truncate_byte(), a as u8, "{}", a);
    }
}

#[test]
fn narrowing_agrees_with_the_machine() {
    for a in samples() {
        let narrow = f64::from_bits(d(a).narrow().bits);
        if a.is_nan() {
            assert!(narrow.is_nan());
        } else {
            assert_eq!(narrow.to_bits(), (a as f32 as f64).to_bits(), "{:e}", a);
        }
    }
}

#[test]
fn integers_become_the_nearest_double() {
    for n in [
        0i64, 1, -1, 2, 12, 1 << 52, (1 << 53) + 1, (1 << 53) + 3, -((1 << 53) + 1), i64::MAX,
        i64::MIN, i64::MAX - 511, i64::MAX - 512, 9_007_199_254_740_993,
    ] {
        assert_eq!(Double::from_integer(n).bits, (n as f64).to_bits(), "{}", n);
    }
    for a in samples() {
        let n = a.to_bits() as i64;
        assert_eq!(Double::from_integer(n).bits, (n as f64).to_bits(), "{}", n);
        assert_eq!(Double::from_integer(n >> 20).bits, ((n >> 20) as f64).to_bits());
    }
}

#[test]
fn halves_are_exact() {
    for n in [1u64, 2, 3, 4_922_401, 9_007_199_254_740_991] {
        assert_eq!(Double::half_of(n).bits, (n as f64 / 2.0).to_bits());
    }
}
