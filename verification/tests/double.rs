use vecstore::double::{Double, INFINITY_BITS, ONE_BITS, SIGN_BIT};

fn double_of(x: f64) -> Double {
    Double::from_bits(x.to_bits())
}

#[test]
fn bits_round_trip() {
    let s = Double::from_bits(0x4009_21fb_5444_2d18);
    assert_eq!(s.to_bits(), 0x4009_21fb_5444_2d18);
    assert_eq!(f64::from_bits(s.to_bits()), std::f64::consts::PI);
}

#[test]
fn constants_are_the_patterns_they_name() {
    assert_eq!(ONE_BITS, 1.0f64.to_bits());
    assert_eq!(INFINITY_BITS, f64::INFINITY.to_bits());
    assert_eq!(SIGN_BIT, (-0.0f64).to_bits());
}

#[test]
fn zero_is_zero() {
    assert!(double_of(0.0).is_zero());
    assert!(double_of(-0.0).is_zero());
    assert!(Double::zero().is_zero());
    assert_eq!(Double::zero().to_bits(), 0);
    assert!(!double_of(0.5).is_zero());
    assert!(!double_of(f64::MIN_POSITIVE).is_zero());
    assert!(!double_of(f64::NAN).is_zero());
}

#[test]
fn rank_of_known_values() {
    assert_eq!(double_of(0.0).rank(), 0);
    assert_eq!(double_of(-0.0).rank(), 0);
    assert_eq!(double_of(1.0).rank(), 0x3ff0_0000_0000_0000);
    assert_eq!(double_of(-1.0).rank(), -0x3ff0_0000_0000_0000);
    assert_eq!(double_of(f64::INFINITY).rank(), 0x7ff0_0000_0000_0000);
    assert_eq!(double_of(f64::NEG_INFINITY).rank(), -0x7ff0_0000_0000_0000);
    assert_eq!(double_of(f64::NAN).rank(), 0x7ff0_0000_0000_0001);
    assert_eq!(Double::from_bits(u64::MAX).rank(), 0x7ff0_0000_0000_0001);
}

#[test]
fn rank_orders_as_the_numbers_do() {
    let values = [
        f64::NEG_INFINITY,
        -1.0e300,
        -2.5,
        -1.0,
        -0.1,
        -f64::MIN_POSITIVE,
        -5e-324,
        0.0,
        5e-324,
        f64::MIN_POSITIVE,
        0.1,
        0.5,
        1.0,
        1.1,
        2.0,
        1.0e300,
        f64::INFINITY,
    ];
    for a in values.iter() {
        for b in values.iter() {
            let (sa, sb) = (double_of(*a), double_of(*b));
            assert_eq!(sa.le(&sb), a <= b, "{} <= {}", a, b);
            assert_eq!(sa.rank() < sb.rank(), a < b, "{} < {}", a, b);
        }
    }
}

#[test]
fn nan_ranks_last() {
    let nan = double_of(f64::NAN);
    assert!(nan.is_nan());
    assert!(!double_of(1.0).is_nan());
    assert!(!double_of(f64::INFINITY).is_nan());
    assert!(double_of(f64::INFINITY).le(&nan));
    assert!(!nan.le(&double_of(f64::INFINITY)));
    assert!(nan.le(&Double::from_bits(f64::NAN.to_bits() | SIGN_BIT)));
}

#[test]
fn unit_interval_bounds() {
    assert!(double_of(0.0).in_unit_interval());
    assert!(double_of(-0.0).in_unit_interval());
    assert!(double_of(1.0).in_unit_interval());
    assert!(double_of(0.5).in_unit_interval());
    assert!(double_of(5e-324).in_unit_interval());
    assert!(!double_of(-0.1).in_unit_interval());
    assert!(!double_of(1.1).in_unit_interval());
    assert!(!double_of(-5e-324).in_unit_interval());
    assert!(!Double::from_bits(ONE_BITS + 1).in_unit_interval());
    assert!(!double_of(f64::NAN).in_unit_interval());
    assert!(!double_of(f64::INFINITY).in_unit_interval());
    assert!(!double_of(f64::NEG_INFINITY).in_unit_interval());
}
