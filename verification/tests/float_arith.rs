use parallaxation2d::float::F32;

fn f(x: f32) -> F32 {
    F32::from_bits(x.to_bits())
}

fn same(got: F32, want: f32) -> bool {
    if want.is_nan() {
        f32::from_bits(got.to_bits()).is_nan()
    } else {
        got.to_bits() == want.to_bits()
    }
}

fn samples() -> Vec<f32> {
    let mut v = vec![
        0.0f32, -0.0, 1.0, -1.0, 2.0, 0.5, 3.0, 10.0, -10.0, 100.0, 15.0, -95.0, 7.5, 1.5,
        0.1, 0.2, 0.3, 1.0e-3, 1.0e10, -1.0e10, 3.4028235e38, -3.4028235e38, 1.17549435e-38,
        1.0e-45, -1.0e-45, 5.0e-39, 16777216.0, 16777217.0, 8388608.5, 0.33333334,
        f32::INFINITY, f32::NEG_INFINITY, f32::NAN, f32::EPSILON, 1.0 + f32::EPSILON,
        2.0e38, 1.0e-30, 123456.79, -0.000123, 6.0e-8,
    ];
    let mut x: u32 = 0x1234_5678;
    for _ in 0..400 {
        x ^= x << 13;
        x ^= x >> 17;
        x ^= x << 5;
        v.push(f32::from_bits(x));
    }
    v
}

#[test]
fn sums_agree_with_the_hardware() {
    let v = samples();
    for &a in v.iter() {
        for &b in v.iter() {
            assert!(same(f(a) + f(b), a + b), "{:?} + {:?}", a, b);
        }
    }
}

#[test]
fn differences_agree_with_the_hardware() {
    let v = samples();
    for &a in v.iter() {
        for &b in v.iter() {
            assert!(same(f(a) - f(b), a - b), "{:?} - {:?}", a, b);
        }
    }
}

#[test]
fn products_agree_with_the_hardware() {
    let v = samples();
    for &a in v.iter() {
        for &b in v.iter() {
            assert!(same(f(a) * f(b), a * b), "{:?} * {:?}", a, b);
        }
    }
}

#[test]
fn quotients_agree_with_the_hardware() {
    let v = samples();
    for &a in v.iter() {
        for &b in v.iter() {
            assert!(same(f(a) / f(b), a / b), "{:?} / {:?}", a, b);
        }
    }
}

#[test]
fn negation_flips_the_sign_bit() {
    for &a in samples().iter() {
        assert_eq!((-f(a)).to_bits(), (-a).to_bits());
    }
}

#[test]
fn comparisons_agree_with_the_hardware() {
    let v = samples();
    for &a in v.iter() {
        for &b in v.iter() {
            assert_eq!(f(a) == f(b), a == b, "{:?} == {:?}", a, b);
            assert_eq!(f(a) != f(b), a != b, "{:?} != {:?}", a, b);
            assert_eq!(f(a) < f(b), a < b, "{:?} < {:?}", a, b);
            assert_eq!(f(a) <= f(b), a <= b, "{:?} <= {:?}", a, b);
            assert_eq!(f(a) > f(b), a > b, "{:?} > {:?}", a, b);
            assert_eq!(f(a) >= f(b), a >= b, "{:?} >= {:?}", a, b);
            assert_eq!(f(a).partial_cmp(&f(b)), a.partial_cmp(&b), "{:?} <=> {:?}", a, b);
        }
    }
}

#[test]
fn halfway_cases_go_to_the_even_neighbour() {
    let one = 1.0f32;
    let ulp = f32::EPSILON;
    // 1 + ulp/2 lies halfway between 1 and 1 + ulp
    assert_eq!((f(one) + f(ulp / 2.0)).to_bits(), one.to_bits());
    // 1 + ulp + ulp/2 lies halfway between 1 + ulp and 1 + 2 ulp
    assert_eq!((f(one + ulp) + f(ulp / 2.0)).to_bits(), (one + 2.0 * ulp).to_bits());
    // 16777216 + 1 and 16777218 + 1
    assert_eq!((f(16777216.0) + f(1.0)).to_bits(), 16777216.0f32.to_bits());
    assert_eq!((f(16777218.0) + f(1.0)).to_bits(), 16777220.0f32.to_bits());
    // three times the smallest number, halved: 1.5 units goes to 2 units
    assert_eq!((f(f32::from_bits(3)) / f(2.0)).to_bits(), 2);
    // the smallest number halved: 0.5 units goes to 0
    assert_eq!((f(f32::from_bits(1)) / f(2.0)).to_bits(), 0);
    assert_eq!((f(f32::from_bits(5)) * f(0.5)).to_bits(), 2);
}

#[test]
fn results_beyond_the_range_are_infinite() {
    assert_eq!((f(f32::MAX) + f(f32::MAX)).to_bits(), f32::INFINITY.to_bits());
    assert_eq!((f(f32::MAX) * f(2.0)).to_bits(), f32::INFINITY.to_bits());
    assert_eq!((f(f32::MIN) * f(2.0)).to_bits(), f32::NEG_INFINITY.to_bits());
    assert_eq!((f(1.0) / f(0.0)).to_bits(), f32::INFINITY.to_bits());
    assert_eq!((f(-1.0) / f(0.0)).to_bits(), f32::NEG_INFINITY.to_bits());
    assert_eq!((f(1.0e30) / f(1.0e-30)).to_bits(), f32::INFINITY.to_bits());
    // half a unit in the last place above the largest number is the turning point
    let half_ulp = f32::from_bits(0x7300_0000);
    assert_eq!((f(f32::MAX) + f(half_ulp)).to_bits(), f32::INFINITY.to_bits());
    let below = f32::from_bits(0x72ff_ffff);
    assert_eq!((f(f32::MAX) + f(below)).to_bits(), f32::MAX.to_bits());
}

#[test]
fn results_that_are_no_number() {
    let nan = 0x7fc0_0000u32;
    assert_eq!((f(0.0) / f(0.0)).to_bits(), nan);
    assert_eq!((f(f32::INFINITY) - f(f32::INFINITY)).to_bits(), nan);
    assert_eq!((f(f32::INFINITY) + f(f32::NEG_INFINITY)).to_bits(), nan);
    assert_eq!((f(f32::INFINITY) * f(0.0)).to_bits(), nan);
    assert_eq!((f(f32::INFINITY) / f(f32::NEG_INFINITY)).to_bits(), nan);
    assert_eq!((f(f32::NAN) + f(1.0)).to_bits(), nan);
    assert_eq!((f(1.0) * f(f32::NAN)).to_bits(), nan);
}

#[test]
fn signs_of_zero() {
    assert_eq!((f(0.0) + f(-0.0)).to_bits(), 0.0f32.to_bits());
    assert_eq!((f(-0.0) + f(-0.0)).to_bits(), (-0.0f32).to_bits());
    assert_eq!((f(1.5) - f(1.5)).to_bits(), 0.0f32.to_bits());
    assert_eq!((f(-1.5) + f(1.5)).to_bits(), 0.0f32.to_bits());
    assert_eq!((f(0.0) * f(-3.0)).to_bits(), (-0.0f32).to_bits());
    assert_eq!((f(-0.0) / f(-3.0)).to_bits(), 0.0f32.to_bits());
    assert_eq!((f(1.0) / f(f32::NEG_INFINITY)).to_bits(), (-0.0f32).to_bits());
    assert_eq!((f(1.0e-30) * f(-1.0e-30)).to_bits(), (-0.0f32).to_bits());
}

#[test]
fn exact_results() {
    assert_eq!((f(1.0) + f(1.0)).to_bits(), 2.0f32.to_bits());
    assert_eq!((f(5.0) - f(20.0)).to_bits(), (-15.0f32).to_bits());
    assert_eq!((f(15.0) * f(2.0)).to_bits(), 30.0f32.to_bits());
    assert_eq!((f(15.0) / f(30.0)).to_bits(), 0.5f32.to_bits());
    assert_eq!((f(1.0) / f(3.0)).to_bits(), 0x3eaa_aaab);
    assert_eq!((f(0.1) + f(0.2)).to_bits(), 0x3e99_999a);
    assert_eq!((f(0.1) * f(0.1)).to_bits(), 0x3c23_d70b);
}

#[test]
fn named_numbers_and_bits() {
    assert_eq!(F32::zero().to_bits(), 0.0f32.to_bits());
    assert_eq!(F32::one().to_bits(), 1.0f32.to_bits());
    assert_eq!(F32::two().to_bits(), 2.0f32.to_bits());
    assert_eq!(F32::from_bits(0x4049_0fdb).to_bits(), std::f32::consts::PI.to_bits());
    assert!(f(-0.0).is_sign_negative());
    assert!(!f(0.0).is_sign_negative());
    assert!(f(f32::NEG_INFINITY).is_sign_negative());
    assert_eq!(parallaxation2d::float::MAX_BITS, f32::MAX.to_bits());
    assert_eq!(parallaxation2d::float::MIN_BITS, f32::MIN.to_bits());
    assert_eq!(parallaxation2d::float::NAN_BITS, 0x7fc0_0000);
}

fn structured() -> Vec<f32> {
    let mut v = Vec::new();
    let fractions = [0u32, 1, 2, 0x3f_ffff, 0x40_0000, 0x40_0001, 0x7f_fffe, 0x7f_ffff, 0x2a_aaaa];
    let exponents = [0u32, 1, 2, 23, 24, 25, 100, 126, 127, 128, 150, 151, 152, 230, 253, 254];
    for e in exponents {
        for fr in fractions {
            v.push(f32::from_bits((e << 23) | fr));
            v.push(f32::from_bits(0x8000_0000 | (e << 23) | fr));
        }
    }
    v
}

#[test]
fn operations_agree_on_numbers_at_the_edges_of_the_format() {
    let v = structured();
    for &a in v.iter() {
        for &b in v.iter() {
            assert!(same(f(a) + f(b), a + b), "{:?} + {:?}", a, b);
            assert!(same(f(a) - f(b), a - b), "{:?} - {:?}", a, b);
            assert!(same(f(a) * f(b), a * b), "{:?} * {:?}", a, b);
            assert!(same(f(a) / f(b), a / b), "{:?} / {:?}", a, b);
        }
    }
}

#[test]
fn sums_agree_where_one_number_dwarfs_the_other() {
    let fractions = [0u32, 1, 0x3f_ffff, 0x40_0000, 0x40_0001, 0x7f_ffff];
    for high in [60u32, 127, 200, 254] {
        for gap in 0u32..=50 {
            let low = high.saturating_sub(gap);
            for fa in fractions {
                for fb in fractions {
                    for (sa, sb) in [(0u32, 0u32), (0, 1), (1, 0), (1, 1)] {
                        let a = f32::from_bits((sa << 31) | (high << 23) | fa);
                        let b = f32::from_bits((sb << 31) | (low << 23) | fb);
                        assert!(same(f(a) + f(b), a + b), "{:?} + {:?}", a, b);
                        assert!(same(f(b) + f(a), b + a), "{:?} + {:?}", b, a);
                        assert!(same(f(a) - f(b), a - b), "{:?} - {:?}", a, b);
                        assert!(same(f(b) - f(a), b - a), "{:?} - {:?}", b, a);
                    }
                }
            }
        }
    }
}

#[test]
fn products_and_quotients_agree_near_the_smallest_numbers() {
    let small = [1u32, 2, 3, 5, 0x3f_ffff, 0x40_0000, 0x7f_ffff, 0x80_0000, 0x80_0001, 0xff_ffff];
    let factors = [0.5f32, 0.25, 0.75, 1.5, 0.3, 3.0, 1.0e-3, 1.0e3, 0.9999999, 1.0000001];
    for s in small {
        for k in factors {
            let a = f32::from_bits(s);
            assert!(same(f(a) * f(k), a * k), "{:?} * {:?}", a, k);
            assert!(same(f(a) / f(k), a / k), "{:?} / {:?}", a, k);
            assert!(same(f(k) / f(a), k / a), "{:?} / {:?}", k, a);
            assert!(same(f(-a) * f(k), -a * k), "{:?} * {:?}", -a, k);
        }
    }
}

struct Patterns(u64);

impl Patterns {
    fn next(&mut self) -> f32 {
        // a 64-bit linear congruential generator; the high bits are the pattern
        self.0 = self.0.wrapping_mul(6364136223846793005).wrapping_add(1442695040888963407);
        f32::from_bits((self.0 >> 32) as u32)
    }

    /// A number whose exponent lies within `spread` of that of `near`.
    fn next_near(&mut self, near: f32, spread: u32) -> f32 {
        let raw = self.next().to_bits();
        let exponent = (near.to_bits() >> 23) & 0xff;
        let shift = (raw >> 23) % (2 * spread + 1);
        let e = (exponent + shift).saturating_sub(spread).min(254);
        f32::from_bits((raw & 0x807f_ffff) | (e << 23))
    }
}

#[test]
fn operations_agree_on_many_patterns() {
    let mut patterns = Patterns(0x2545_f491_4f6c_dd1d);
    for _ in 0..300_000 {
        let a = patterns.next();
        let b = patterns.next();
        assert!(same(f(a) + f(b), a + b), "{:?} + {:?}", a, b);
        assert!(same(f(a) - f(b), a - b), "{:?} - {:?}", a, b);
        assert!(same(f(a) * f(b), a * b), "{:?} * {:?}", a, b);
        assert!(same(f(a) / f(b), a / b), "{:?} / {:?}", a, b);
        assert_eq!(f(a).partial_cmp(&f(b)), a.partial_cmp(&b), "{:?} <=> {:?}", a, b);
    }
}

#[test]
fn operations_agree_on_patterns_of_similar_size() {
    let mut patterns = Patterns(0x9e37_79b9_7f4a_7c15);
    for _ in 0..300_000 {
        let a = patterns.next();
        let b = patterns.next_near(a, 30);
        assert!(same(f(a) + f(b), a + b), "{:?} + {:?}", a, b);
        assert!(same(f(a) - f(b), a - b), "{:?} - {:?}", a, b);
        assert!(same(f(a) * f(b), a * b), "{:?} * {:?}", a, b);
        assert!(same(f(a) / f(b), a / b), "{:?} / {:?}", a, b);
        assert_eq!(f(a) == f(b), a == b, "{:?} == {:?}", a, b);
        assert_eq!(f(a) < f(b), a < b, "{:?} < {:?}", a, b);
    }
}
