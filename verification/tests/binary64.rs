use boltzmann::Binary64;

fn b(x: f64) -> Binary64 {
    Binary64::from_bits(x.to_bits())
}

fn grid() -> Vec<f64> {
    vec![
        0.0,
        -0.0,
        1.0,
        -1.0,
        1e-9,
        -1e-9,
        10.0,
        100.0,
        500.0,
        -500.0,
        0.1,
        0.30000000000000004,
        6.214608098422191,
        f64::MIN_POSITIVE,
        -f64::MIN_POSITIVE,
        f64::from_bits(1),
        -f64::from_bits(1),
        f64::from_bits(0x000f_ffff_ffff_ffff),
        f64::MAX,
        f64::MIN,
        f64::EPSILON,
        1.0 + f64::EPSILON,
        1.0 - f64::EPSILON / 2.0,
        f64::INFINITY,
        f64::NEG_INFINITY,
        f64::NAN,
        -f64::NAN,
        f64::from_bits(0x7ff0_0000_0000_0001),
        f64::from_bits(0xffff_ffff_ffff_ffff),
    ]
}

#[test]
fn bits_round_trip() {
    for bits in [0u64, 1, 0x3ff0_0000_0000_0000, 0x8000_0000_0000_0000, u64::MAX] {
        assert_eq!(Binary64::from_bits(bits).to_bits(), bits);
        assert_eq!(Binary64::from_bits(bits).bits, bits);
    }
}

#[test]
fn lt_agrees_with_the_hardware_on_every_pair() {
    for x in grid() {
        for y in grid() {
            assert_eq!(b(x).lt(&b(y)), x < y, "{:?} < {:?}", x, y);
        }
    }
}

#[test]
fn lt_of_neighbouring_data() {
    for x in grid() {
        if x.is_nan() || x.is_infinite() {
            continue;
        }
        let next = f64::from_bits(x.to_bits() + 1);
        assert_eq!(b(x).lt(&b(next)), x < next);
        assert_eq!(b(next).lt(&b(x)), next < x);
    }
}

#[test]
fn one_is_below_two_and_not_the_reverse() {
    assert!(b(1.0).lt(&b(2.0)));
    assert!(!b(2.0).lt(&b(1.0)));
    assert!(!b(1.0).lt(&b(1.0)));
}

#[test]
fn the_zeros_are_equal() {
    assert!(!b(0.0).lt(&b(-0.0)));
    assert!(!b(-0.0).lt(&b(0.0)));
}

#[test]
fn negative_numbers_order_against_their_bit_patterns() {
    assert!(b(-2.0).lt(&b(-1.0)));
    assert!(!b(-1.0).lt(&b(-2.0)));
    assert!(b(-1.0).lt(&b(0.0)));
    assert!(b(-1.0).lt(&b(-0.0)));
    assert!(b(-f64::from_bits(1)).lt(&b(f64::from_bits(1))));
}

#[test]
fn nothing_is_below_or_above_a_nan() {
    for x in grid() {
        assert!(!b(f64::NAN).lt(&b(x)));
        assert!(!b(x).lt(&b(f64::NAN)));
    }
}

#[test]
fn infinities_lie_beyond_the_finite() {
    assert!(b(f64::MAX).lt(&b(f64::INFINITY)));
    assert!(b(f64::NEG_INFINITY).lt(&b(f64::MIN)));
    assert!(b(f64::NEG_INFINITY).lt(&b(f64::INFINITY)));
    assert!(!b(f64::INFINITY).lt(&b(f64::INFINITY)));
}

#[test]
fn ge_agrees_with_the_hardware_on_every_pair() {
    for x in grid() {
        for y in grid() {
            assert_eq!(b(x).ge(&b(y)), x >= y, "{:?} >= {:?}", x, y);
        }
    }
}

#[test]
fn ge_against_zero() {
    assert!(b(0.0).ge(&b(0.0)));
    assert!(b(-0.0).ge(&b(0.0)));
    assert!(b(0.0).ge(&b(-0.0)));
    assert!(b(1e-300).ge(&b(0.0)));
    assert!(b(f64::INFINITY).ge(&b(0.0)));
    assert!(!b(-1.0).ge(&b(0.0)));
    assert!(!b(-f64::from_bits(1)).ge(&b(0.0)));
    assert!(!b(f64::NEG_INFINITY).ge(&b(0.0)));
}

#[test]
fn a_nan_is_at_least_nothing_and_nothing_is_at_least_a_nan() {
    for x in grid() {
        assert!(!b(f64::NAN).ge(&b(x)));
        assert!(!b(x).ge(&b(f64::NAN)));
        assert!(!b(-f64::NAN).ge(&b(x)));
    }
}

#[test]
fn is_nan_agrees_with_the_hardware() {
    for x in grid() {
        assert_eq!(b(x).is_nan(), x.is_nan(), "{:?}", x);
    }
    assert!(!b(f64::INFINITY).is_nan());
    assert!(b(f64::from_bits(0x7ff0_0000_0000_0001)).is_nan());
}

/// A fixed walk through the bit patterns: a linear congruential generator.
fn walk(state: &mut u64) -> u64 {
    *state = state.wrapping_mul(6364136223846793005).wrapping_add(1442695040888963407);
    *state
}

#[test]
fn lt_agrees_with_the_hardware_on_a_walk_through_the_bit_patterns() {
    let mut state = 0x2545_f491_4f6c_dd1d;
    for _ in 0..200_000 {
        let (p, q) = (walk(&mut state), walk(&mut state));
        let (x, y) = (f64::from_bits(p), f64::from_bits(q));
        assert_eq!(Binary64::from_bits(p).lt(&Binary64::from_bits(q)), x < y, "{:x} {:x}", p, q);
        assert_eq!(Binary64::from_bits(p).ge(&Binary64::from_bits(q)), x >= y, "{:x} {:x}", p, q);
        assert_eq!(Binary64::from_bits(p).ge(&Binary64::from_bits(0)), x >= 0.0, "{:x}", p);
        assert_eq!(Binary64::from_bits(p).is_nan(), x.is_nan(), "{:x}", p);
    }
}

#[test]
fn lt_agrees_with_the_hardware_near_the_exponent_boundaries() {
    for exponent in 0..=0x7ffu64 {
        for fraction in [0u64, 1, 0x000f_ffff_ffff_fffe, 0x000f_ffff_ffff_ffff] {
            for sign in [0u64, 1] {
                let p = (sign << 63) | (exponent << 52) | fraction;
                for q in [p.wrapping_add(1), p.wrapping_sub(1), p ^ (1 << 63), p] {
                    let (x, y) = (f64::from_bits(p), f64::from_bits(q));
                    assert_eq!(
                        Binary64::from_bits(p).lt(&Binary64::from_bits(q)),
                        x < y,
                        "{:x} {:x}",
                        p,
                        q
                    );
                }
            }
        }
    }
}
