use pathtracer::scalar::{Scalar, INFINITY_BITS, ONE_BITS, SIGN_BIT};

fn scalar(x: f64) -> Scalar {
    Scalar::from_bits(x.to_bits())
}

fn samples() -> Vec<f64> {
    vec![
        0.0,
        -0.0,
        1.0,
        -1.0,
        0.5,
        -0.5,
        0.001,
        2.0,
        255.99,
        1e-310,
        -1e-310,
        f64::MIN_POSITIVE,
        f64::MAX,
        f64::MIN,
        f64::EPSILON,
        1.0 + f64::EPSILON,
        f64::INFINITY,
        f64::NEG_INFINITY,
        f64::NAN,
        -f64::NAN,
        f64::from_bits(0x7ff0_0000_0000_0001),
        f64::from_bits(0xffff_ffff_ffff_ffff),
    ]
}

/// Bit patterns spread over all encodings, the same on every run.
fn patterns(count: usize) -> Vec<u64> {
    let mut state: u64 = 0x9e37_79b9_7f4a_7c15;
    let mut out = Vec::new();
    for _ in 0..count {
        state ^= state << 13;
        state ^= state >> 7;
        state ^= state << 17;
        out.push(state);
    }
    out
}

#[test]
fn constants_are_the_encodings_of_their_values() {
    assert_eq!(Scalar::zero().to_bits(), 0.0f64.to_bits());
    assert_eq!(Scalar::one().to_bits(), 1.0f64.to_bits());
    assert_eq!(Scalar::infinity().to_bits(), f64::INFINITY.to_bits());
    assert_eq!(ONE_BITS, 1.0f64.to_bits());
    assert_eq!(INFINITY_BITS, f64::INFINITY.to_bits());
    assert_eq!(SIGN_BIT, (-0.0f64).to_bits());
}

#[test]
fn bits_round_trip() {
    for x in samples() {
        assert_eq!(scalar(x).to_bits(), x.to_bits());
        assert_eq!(scalar(x).bits, x.to_bits());
    }
}

#[test]
fn is_nan_agrees_with_doubles() {
    for x in samples() {
        assert_eq!(scalar(x).is_nan(), x.is_nan(), "{x}");
    }
}

#[test]
fn ordering_agrees_with_doubles() {
    for a in samples() {
        for b in samples() {
            assert_eq!(scalar(a).lt(scalar(b)), a < b, "{a} < {b}");
            assert_eq!(scalar(a).le(scalar(b)), a <= b, "{a} <= {b}");
            assert_eq!(scalar(a).gt(scalar(b)), a > b, "{a} > {b}");
            assert_eq!(scalar(a).ge(scalar(b)), a >= b, "{a} >= {b}");
        }
    }
}

#[test]
fn zeros_are_equal_in_order() {
    let plus = scalar(0.0);
    let minus = scalar(-0.0);
    assert!(!plus.lt(minus));
    assert!(!minus.lt(plus));
    assert!(plus.le(minus));
    assert!(minus.le(plus));
    assert_ne!(plus, minus);
}

#[test]
fn nan_compares_false_with_everything() {
    let nan = scalar(f64::NAN);
    for x in samples() {
        assert!(!nan.lt(scalar(x)));
        assert!(!nan.le(scalar(x)));
        assert!(!nan.gt(scalar(x)));
        assert!(!nan.ge(scalar(x)));
    }
}

#[test]
fn neg_agrees_with_doubles() {
    for x in samples() {
        assert_eq!(scalar(x).neg().to_bits(), (-x).to_bits(), "{x}");
        assert_eq!(scalar(x).neg().neg(), scalar(x));
    }
    assert_eq!(scalar(1.5).neg(), scalar(-1.5));
}

#[test]
fn neg_reverses_order() {
    for a in samples() {
        for b in samples() {
            assert_eq!(scalar(a).lt(scalar(b)), scalar(b).neg().lt(scalar(a).neg()));
        }
    }
}

#[test]
fn clamp_unit_agrees_with_doubles() {
    for x in samples() {
        assert_eq!(scalar(x).clamp_unit().to_bits(), x.clamp(0.0, 1.0).to_bits(), "{x}");
    }
    assert_eq!(scalar(5.0).clamp_unit(), scalar(1.0));
    assert_eq!(scalar(-3.0).clamp_unit(), scalar(0.0));
    assert_eq!(scalar(0.25).clamp_unit(), scalar(0.25));
    assert!(scalar(f64::NAN).clamp_unit().is_nan());
}

#[test]
fn to_byte_agrees_with_the_cast() {
    for x in samples() {
        assert_eq!(scalar(x).to_byte(), x as u8, "{x}");
    }
    let mut x = -2.0f64;
    while x < 300.0 {
        assert_eq!(scalar(x).to_byte(), x as u8, "{x}");
        x += 0.0625;
    }
    let mut bits = 0x3fe0_0000_0000_0000u64;
    while bits < 0x4080_0000_0000_0000u64 {
        let value = f64::from_bits(bits);
        assert_eq!(Scalar::from_bits(bits).to_byte(), value as u8, "{value}");
        assert_eq!(Scalar::from_bits(bits - 1).to_byte(), f64::from_bits(bits - 1) as u8);
        bits += 0x0000_0fff_ffff_f001;
    }
}

#[test]
fn to_byte_exact_values() {
    assert_eq!(scalar(0.0).to_byte(), 0);
    assert_eq!(scalar(0.999_999).to_byte(), 0);
    assert_eq!(scalar(1.0).to_byte(), 1);
    assert_eq!(scalar(1.999).to_byte(), 1);
    assert_eq!(scalar(2.0).to_byte(), 2);
    assert_eq!(scalar(127.5).to_byte(), 127);
    assert_eq!(scalar(254.999).to_byte(), 254);
    assert_eq!(scalar(255.0).to_byte(), 255);
    assert_eq!(scalar(255.99).to_byte(), 255);
    assert_eq!(scalar(256.0).to_byte(), 255);
    assert_eq!(scalar(1e30).to_byte(), 255);
    assert_eq!(scalar(f64::INFINITY).to_byte(), 255);
    assert_eq!(scalar(-1.0).to_byte(), 0);
    assert_eq!(scalar(f64::NEG_INFINITY).to_byte(), 0);
    assert_eq!(scalar(f64::NAN).to_byte(), 0);
}

#[test]
fn channel_quantisation() {
    // a linear value, gamma-corrected, clamped and scaled by 255.99
    let quantise = |linear: f64| {
        let clamped = f64::from_bits(scalar(linear.sqrt()).clamp_unit().to_bits());
        scalar(clamped * 255.99).to_byte()
    };
    assert_eq!(quantise(0.0), 0);
    assert_eq!(quantise(0.25), 127);
    assert_eq!(quantise(1.0), 255);
    assert_eq!(quantise(5.0), 255);
    assert_eq!(quantise(-1.0), 0);
    assert_eq!(quantise(f64::NAN), 0);
    for k in 0..=1000 {
        let linear = -0.5 + k as f64 * 0.002;
        assert_eq!(quantise(linear), (linear.clamp(0.0, 1.0).sqrt() * 255.99) as u8);
    }
}

#[test]
fn ordering_agrees_with_doubles_on_arbitrary_encodings() {
    let bits = patterns(2000);
    for pair in bits.windows(2) {
        let (a, b) = (f64::from_bits(pair[0]), f64::from_bits(pair[1]));
        let (x, y) = (Scalar::from_bits(pair[0]), Scalar::from_bits(pair[1]));
        assert_eq!(x.lt(y), a < b);
        assert_eq!(x.le(y), a <= b);
        assert_eq!(x.gt(y), a > b);
        assert_eq!(x.ge(y), a >= b);
        assert_eq!(x.is_nan(), a.is_nan());
        assert_eq!(x.neg().to_bits(), (-a).to_bits());
        assert_eq!(x.clamp_unit().to_bits(), a.clamp(0.0, 1.0).to_bits());
        assert_eq!(x.to_byte(), a as u8);
    }
}

#[test]
fn to_byte_agrees_with_the_cast_near_the_byte_range() {
    // exponents from that of 1/4 to that of 1024, with arbitrary fractions
    for pattern in patterns(4000) {
        let exponent = 1021 + pattern % 13;
        let fraction = (pattern >> 8) & 0x000f_ffff_ffff_ffff;
        let bits = (exponent << 52) | fraction;
        assert_eq!(Scalar::from_bits(bits).to_byte(), f64::from_bits(bits) as u8);
        let negative = bits | SIGN_BIT;
        assert_eq!(Scalar::from_bits(negative).to_byte(), 0);
    }
}
