use fractal::soft_float::SoftFloat;

#[test]
fn to_string_exp_negative_works() {
    // // 0.0000125
    // let sf = SoftFloat {
    //     positive: true,
    //     exponent: -7,
    //     significand: 125,
    // };

    // assert_eq!("0.0000125", format!("{}", sf));
}

#[test]
fn to_string_exp_positive_works() {
    // // 60.89523
    // let sf = SoftFloat {
    //     positive: true,
    //     exponent: -5,
    //     significand: 6089523,
    // };

    // assert_eq!("60.89523", format!("{}", sf));
}

#[test]
fn to_string_negative_number_works() {
    // // 60.89523
    // let sf = SoftFloat {
    //     positive: false,
    //     exponent: -5,
    //     significand: 6089523,
    // };

    // assert_eq!("-60.89523", format!("{}", sf));
}

#[test]
fn convert_from_float_works() {
    // The binary32 field extraction is exercised bit for bit in
    // from_bits_matches_native below.
}

#[test]
fn comparsion_works() {
    let a = SoftFloat::from_bits(100.2345f32.to_bits());
    let b = SoftFloat::from_bits(100.2346f32.to_bits());
    let c = SoftFloat::from_bits(1.2346f32.to_bits());
    let d = SoftFloat::from_bits((-99999.99999f32).to_bits());
    let e = SoftFloat::from_bits((-99999.99998f32).to_bits());
    let f = SoftFloat::from_bits((-0.098f32).to_bits());

    // Positive numbers
    assert!(a < b);
    assert!(a == a);
    assert!(b > a);
    assert!(b > c);
    assert!(c < a);

    // Mixed numbers
    assert!(d < c);
    assert!(c > d);

    // Negative numbers
    assert!(f == f);
    assert!(e < f);
    assert!(f > e);

    assert!(SoftFloat::from_bits(11.01f32.to_bits()) > SoftFloat::from_bits(11.001f32.to_bits()));
    assert!(SoftFloat::from_bits(0.09f32.to_bits()) > SoftFloat::from_bits(0.011f32.to_bits()));
    assert!(SoftFloat::from_bits(9.1234f32.to_bits()) > SoftFloat::from_bits(9.123f32.to_bits()));

    assert!(SoftFloat::from_bits(0.1f32.to_bits()) > SoftFloat::from_bits(0.000123f32.to_bits()));

    // sign | whole | fraction | exp
    // ++   |  ==   |    ==    | ==
    assert!(SoftFloat::from_bits(1.23f32.to_bits()) == SoftFloat::from_bits(1.23f32.to_bits()));
    // ++   |  ==   |    ==    | <
    assert!(SoftFloat::from_bits(1.0023f32.to_bits()) < SoftFloat::from_bits(1.23f32.to_bits()));
    // ++   |  ==   |    ==    | >
    assert!(SoftFloat::from_bits(1.23f32.to_bits()) > SoftFloat::from_bits(1.023f32.to_bits()));

    // ++   |  ==   |    <    | =
    assert!(SoftFloat::from_bits(1.11f32.to_bits()) < SoftFloat::from_bits(1.99f32.to_bits()));
    // ++   |  ==   |    <    | <
    assert!(SoftFloat::from_bits(1.011f32.to_bits()) < SoftFloat::from_bits(1.99f32.to_bits()));
    // ++   |  ==   |    <    | >
    assert!(SoftFloat::from_bits(1.11f32.to_bits()) > SoftFloat::from_bits(1.099f32.to_bits()));

    // ++   |  ==   |    >    | ==
    assert!(SoftFloat::from_bits(1.99f32.to_bits()) > SoftFloat::from_bits(1.11f32.to_bits()));
    // ++   |  ==   |    >    | <
    assert!(SoftFloat::from_bits(1.099f32.to_bits()) < SoftFloat::from_bits(1.11f32.to_bits()));
    // ++   |  ==   |    >    | >
    assert!(SoftFloat::from_bits(1.99f32.to_bits()) > SoftFloat::from_bits(1.011f32.to_bits()));

    // ++   |  <   |    ==    | ==
    assert!(SoftFloat::from_bits(2.0f32.to_bits()) < SoftFloat::from_bits(3.0f32.to_bits()));
}

#[test]
fn from_bits_matches_native() {
    for value in [
        100.0f32, 10.0, 1.0, 1.0101, 0.0, 0.1, 0.01, 0.001, -100.0, -10.0, -1.0, -1.0101, -0.1,
        -0.01, -0.001, 0.00001, 10000.0, -0.0,
    ] {
        let bits = value.to_bits();
        let sf = SoftFloat::from_bits(bits);
        assert_eq!(sf.negative, value.is_sign_negative());
        assert_eq!(sf.exponent, (bits >> 23) & 0xFF);
        assert_eq!(sf.significand, (bits & 0x7FFFFF) as u64);
        assert_eq!(sf.to_bits(), bits);
    }
}

#[test]
fn classification_works() {
    let pos_inf = SoftFloat::pos_inf();
    let neg_inf = SoftFloat::neg_inf();
    assert!(pos_inf.is_pos_infinity());
    assert!(!pos_inf.is_neg_infinity());
    assert!(neg_inf.is_neg_infinity());
    assert!(!neg_inf.is_pos_infinity());
    assert_eq!(pos_inf.to_bits(), f32::INFINITY.to_bits());
    assert_eq!(neg_inf.to_bits(), f32::NEG_INFINITY.to_bits());

    let nan = SoftFloat::from_bits(f32::NAN.to_bits());
    assert!(nan.is_nan());
    assert!(!nan.is_pos_infinity());

    let pz = SoftFloat::from_bits(0.0f32.to_bits());
    let nz = SoftFloat::from_bits((-0.0f32).to_bits());
    assert!(pz.is_pos_zero() && !pz.is_neg_zero());
    assert!(nz.is_neg_zero() && !nz.is_pos_zero());
    assert!(!pz.is_subnormal());

    let tiny = SoftFloat::from_bits(1.0e-44f32.to_bits());
    assert!(tiny.is_subnormal());
    assert!(!tiny.is_nan());
}

#[test]
fn get_exponent_works() {
    assert_eq!(SoftFloat::from_bits(1.0f32.to_bits()).get_exponent(), 0);
    assert_eq!(SoftFloat::from_bits(2.0f32.to_bits()).get_exponent(), 1);
    assert_eq!(SoftFloat::from_bits(0.5f32.to_bits()).get_exponent(), -1);
    // Subnormals share the smallest normal exponent.
    assert_eq!(SoftFloat::from_bits(1.0e-44f32.to_bits()).get_exponent(), -126);
}

#[test]
fn normalize_works() {
    let mut v = SoftFloat { negative: false, exponent: 100, significand: 0x3000000 };
    v.normalize();
    assert_eq!(v, SoftFloat { negative: false, exponent: 102, significand: 0x400000 });

    // Values already in range only lose the implicit bit position.
    let mut w = SoftFloat { negative: true, exponent: 127, significand: 0x900000 };
    w.normalize();
    assert_eq!(w, SoftFloat { negative: true, exponent: 127, significand: 0x100000 });

    // NaN and the infinities pass through untouched.
    let mut inf = SoftFloat::pos_inf();
    inf.normalize();
    assert_eq!(inf, SoftFloat::pos_inf());
}

#[test]
fn multiplication_exact_products_work() {
    let cases = [
        (2.0f32, 2.0f32, 4.0f32),
        (1.5, 1.5, 2.25),
        (3.0, 0.5, 1.5),
        (-2.0, 2.0, -4.0),
        (-0.5, -0.5, 0.25),
    ];
    for (a, b, c) in cases {
        let r = SoftFloat::from_bits(a.to_bits()).mul(&SoftFloat::from_bits(b.to_bits()));
        assert_eq!(r, SoftFloat::from_bits(c.to_bits()));
    }
}

#[test]
fn multiplication_truncates_low_bits() {
    // The experimental backend truncates the significand product instead of
    // rounding it to nearest, so this product lands one step below the
    // correctly rounded binary32 result.
    let a = SoftFloat::from_bits(0.00001f32.to_bits());
    let b = SoftFloat::from_bits(10000.0f32.to_bits());
    let rounded = 0.1f32.to_bits();
    assert_eq!(a.mul(&b).to_bits(), rounded - 1);
}

#[test]
fn multiplication_overflow_returns_infinity() {
    let big = SoftFloat::from_bits(1.0e38f32.to_bits());
    let r = big.mul(&big);
    assert!(r.is_pos_infinity());
    let r2 = SoftFloat::from_bits((-1.0e38f32).to_bits()).mul(&big);
    assert!(r2.is_neg_infinity());
}
