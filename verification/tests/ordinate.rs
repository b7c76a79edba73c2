use datafusion_spatial::ordinate::{
    ordinate_gt, ordinate_is_nan, ordinate_lt, ordinate_max, ordinate_min, ordinate_total_lt,
    INFINITY, NEG_INFINITY, SIGN_BIT,
};

fn samples() -> Vec<f64> {
    vec![
        0.0,
        -0.0,
        1.0,
        -1.0,
        2.5,
        -2.5,
        1e20,
        -1e20,
        5e-324,
        -5e-324,
        f64::MIN_POSITIVE,
        f64::MAX,
        f64::MIN,
        f64::INFINITY,
        f64::NEG_INFINITY,
        f64::NAN,
        -f64::NAN,
        f64::from_bits(0x7FF0_0000_0000_0001),
    ]
}

#[test]
fn constants_are_the_patterns_of_the_infinities() {
    assert_eq!(INFINITY, f64::INFINITY.to_bits());
    assert_eq!(NEG_INFINITY, f64::NEG_INFINITY.to_bits());
    assert_eq!(SIGN_BIT, (-0.0f64).to_bits());
}

#[test]
fn is_nan_agrees_with_doubles() {
    for x in samples() {
        assert_eq!(ordinate_is_nan(x.to_bits()), x.is_nan(), "{x:?}");
    }
}

#[test]
fn comparisons_agree_with_doubles() {
    for a in samples() {
        for b in samples() {
            assert_eq!(ordinate_lt(a.to_bits(), b.to_bits()), a < b, "{a:?} < {b:?}");
            assert_eq!(ordinate_gt(a.to_bits(), b.to_bits()), a > b, "{a:?} > {b:?}");
        }
    }
}

#[test]
fn total_order_agrees_with_doubles() {
    for a in samples() {
        for b in samples() {
            assert_eq!(
                ordinate_total_lt(a.to_bits(), b.to_bits()),
                a.total_cmp(&b).is_lt(),
                "{a:?} {b:?}"
            );
        }
    }
}

#[test]
fn min_and_max_agree_with_doubles_as_values() {
    for a in samples() {
        for b in samples() {
            let least = f64::from_bits(ordinate_min(a.to_bits(), b.to_bits()));
            let greatest = f64::from_bits(ordinate_max(a.to_bits(), b.to_bits()));
            if a.is_nan() && b.is_nan() {
                assert!(least.is_nan() && greatest.is_nan());
            } else {
                assert_eq!(least, a.min(b), "min {a:?} {b:?}");
                assert_eq!(greatest, a.max(b), "max {a:?} {b:?}");
            }
        }
    }
}

#[test]
fn min_and_max_keep_the_left_of_equal_numbers() {
    let plus = 0.0f64.to_bits();
    let minus = (-0.0f64).to_bits();
    assert_eq!(ordinate_min(plus, minus), plus);
    assert_eq!(ordinate_min(minus, plus), minus);
    assert_eq!(ordinate_max(plus, minus), plus);
    assert_eq!(ordinate_max(minus, plus), minus);
}

#[test]
fn min_and_max_pass_over_what_is_no_number() {
    let nan = f64::NAN.to_bits();
    let one = 1.0f64.to_bits();
    assert_eq!(ordinate_min(nan, one), one);
    assert_eq!(ordinate_min(one, nan), one);
    assert_eq!(ordinate_max(nan, one), one);
    assert_eq!(ordinate_max(one, nan), one);
}
