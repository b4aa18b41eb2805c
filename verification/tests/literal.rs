use cairo_lang_core::integer::Integer;

#[test]
fn integers_of_any_size() {
    let a = Integer::from_hex("ffffffffffffffffffffffffffffffffffffffff");
    let b = Integer::from_u128(1);
    assert_eq!(a.plus(&b), Integer::from_hex("10000000000000000000000000000000000000000"));
    assert_eq!(a.minus(&a).text(), "0");
    assert_eq!(Integer::from_hex("ff").times(&Integer::from_hex("ff")).text(), "65025");
    assert_eq!(Integer::from_u128(255).negated().text(), "-255");
    assert!(Integer::from_u128(3).negated().less(&Integer::from_u128(2)));
    assert!(!Integer::from_u128(2).less(&Integer::from_u128(2)));
    assert!(Integer::from_u128(0).is_zero());
    assert!(!b.is_zero());
    assert_eq!(Integer::from_u128(77).to_usize(), Some(77));
    assert_eq!(Integer::from_u128(1).negated().to_usize(), None);
    assert_eq!(a.to_usize(), None);
}

#[test]
fn division_rounds_towards_zero() {
    let n = |value: i64| {
        let magnitude = Integer::from_u128(value.unsigned_abs() as u128);
        if value < 0 {
            magnitude.negated()
        } else {
            magnitude
        }
    };
    for (a, b) in [(7, 2), (-7, 2), (7, -2), (-7, -2), (6, 3), (0, 5)] {
        assert_eq!(n(a).div(&n(b)), n(a / b));
        assert_eq!(n(a).rem(&n(b)), n(a % b));
        assert_eq!(n(a).div(&n(b)).times(&n(b)).plus(&n(a).rem(&n(b))), n(a));
    }
    for (a, b) in [(12, 10), (-12, 10), (12, -10), (-12, -10)] {
        assert_eq!(n(a).bitand(&n(b)), n(a & b));
        assert_eq!(n(a).bitor(&n(b)), n(a | b));
        assert_eq!(n(a).bitxor(&n(b)), n(a ^ b));
    }
    assert_eq!(n(-5).shr(1), n(-3));
    assert_eq!(n(5).shl(3), n(40));
}

#[test]
fn bytes_are_those_of_the_integer() {
    let minus_two = Integer::from_u128(2).negated();
    assert_eq!(minus_two.to_signed_bytes_le(), vec![0xfe]);
    assert_eq!(Integer::from_signed_bytes_le(vec![0xfe, 0xff]), minus_two);
    assert_eq!(Integer::from_signed_bytes_le(vec![0x00, 0x01]).text(), "256");
}
