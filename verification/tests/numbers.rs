use bandits::argmax::argmax;
use bandits::number::{Binary64, INFINITY_BITS, NEG_INFINITY_BITS, ONE_BITS, SIGN_BIT, ZERO_BITS};

fn num(x: f64) -> Binary64 {
    Binary64::from_bits(x.to_bits())
}

fn samples() -> Vec<f64> {
    vec![
        0.0,
        -0.0,
        1.0,
        -1.0,
        0.5,
        -0.5,
        1.5,
        2.0,
        -2.0,
        1e-310,
        -1e-310,
        5e-324,
        -5e-324,
        f64::MIN_POSITIVE,
        f64::MAX,
        f64::MIN,
        f64::INFINITY,
        f64::NEG_INFINITY,
        f64::NAN,
        -f64::NAN,
        f64::EPSILON,
        3.141592653589793,
        -3.141592653589793,
        1e300,
        -1e300,
    ]
}

#[test]
fn bits_go_in_and_out_unchanged() {
    for x in samples() {
        assert_eq!(num(x).to_bits(), x.to_bits());
    }
    assert_eq!(Binary64::from_bits(42).to_bits(), 42);
}

#[test]
fn constants_are_the_bit_patterns_of_their_numbers() {
    assert_eq!(ZERO_BITS, 0.0f64.to_bits());
    assert_eq!(ONE_BITS, 1.0f64.to_bits());
    assert_eq!(INFINITY_BITS, f64::INFINITY.to_bits());
    assert_eq!(NEG_INFINITY_BITS, f64::NEG_INFINITY.to_bits());
    assert_eq!(SIGN_BIT, (-0.0f64).to_bits());
    assert_eq!(Binary64::zero().to_bits(), 0.0f64.to_bits());
    assert_eq!(Binary64::neg_infinity().to_bits(), f64::NEG_INFINITY.to_bits());
}

#[test]
fn gt_agrees_with_the_machine() {
    for a in samples() {
        for b in samples() {
            assert_eq!(num(a).gt(num(b)), a > b, "{:?} > {:?}", a, b);
        }
    }
}

#[test]
fn lt_agrees_with_the_machine() {
    for a in samples() {
        for b in samples() {
            assert_eq!(num(a).lt(num(b)), a < b, "{:?} < {:?}", a, b);
        }
    }
}

#[test]
fn is_nan_agrees_with_the_machine() {
    for a in samples() {
        assert_eq!(num(a).is_nan(), a.is_nan(), "{:?}", a);
    }
    assert!(Binary64::from_bits(0x7FF0_0000_0000_0001).is_nan());
    assert!(Binary64::from_bits(0xFFFF_FFFF_FFFF_FFFF).is_nan());
    assert!(!Binary64::from_bits(0x7FF0_0000_0000_0000).is_nan());
}

#[test]
fn the_two_zeros_are_equal() {
    assert!(!num(0.0).gt(num(-0.0)));
    assert!(!num(-0.0).gt(num(0.0)));
    assert!(!num(0.0).lt(num(-0.0)));
}

#[test]
fn nothing_compares_with_nan() {
    for a in samples() {
        assert!(!num(a).gt(num(f64::NAN)));
        assert!(!num(f64::NAN).gt(num(a)));
    }
}

#[test]
fn argmax_of_nothing_is_zero() {
    assert_eq!(argmax(&Vec::new()), 0);
}

#[test]
fn argmax_finds_the_greatest() {
    let v: Vec<Binary64> = vec![num(1.0), num(-3.0), num(7.5), num(2.0)];
    assert_eq!(argmax(&v), 2);
}

#[test]
fn argmax_takes_the_lowest_index_among_ties() {
    let v: Vec<Binary64> = vec![num(1.0), num(4.0), num(4.0), num(0.0), num(4.0)];
    assert_eq!(argmax(&v), 1);
    let zeros: Vec<Binary64> = vec![num(0.0), num(0.0), num(0.0)];
    assert_eq!(argmax(&zeros), 0);
    let signed: Vec<Binary64> = vec![num(-0.0), num(0.0)];
    assert_eq!(argmax(&signed), 0);
}

#[test]
fn argmax_passes_over_what_is_no_number() {
    let v: Vec<Binary64> = vec![num(f64::NAN), num(-2.0), num(f64::NAN), num(-1.0)];
    assert_eq!(argmax(&v), 3);
}

#[test]
fn argmax_of_negative_infinities_is_zero() {
    let v: Vec<Binary64> = vec![num(f64::NEG_INFINITY), num(f64::NEG_INFINITY)];
    assert_eq!(argmax(&v), 0);
    let w: Vec<Binary64> = vec![num(f64::NAN), num(f64::NEG_INFINITY), num(f64::NAN)];
    assert_eq!(argmax(&w), 0);
}

#[test]
fn argmax_is_what_a_scan_with_greater_than_finds() {
    let pool = samples();
    let mut state: u64 = 12345;
    for _ in 0..500 {
        let mut xs: Vec<f64> = Vec::new();
        for _ in 0..6 {
            state = state.wrapping_mul(6364136223846793005).wrapping_add(1442695040888963407);
            xs.push(pool[(state >> 33) as usize % pool.len()]);
        }
        let mut best = f64::NEG_INFINITY;
        let mut expected = 0;
        for (i, x) in xs.iter().enumerate() {
            if *x > best {
                best = *x;
                expected = i;
            }
        }
        let v: Vec<Binary64> = xs.iter().map(|x| num(*x)).collect();
        assert_eq!(argmax(&v), expected, "{:?}", xs);
    }
}
