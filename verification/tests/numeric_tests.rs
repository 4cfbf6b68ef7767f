use defitax::{parse_u64_from_text, scale_token_amount, u64_to_dec_text, FieldError, U256};

#[test]
fn parse_u64_simple() {
    assert_eq!(parse_u64_from_text("123"), Ok(123));
    assert_eq!(parse_u64_from_text("0"), Ok(0));
    assert_eq!(parse_u64_from_text("007"), Ok(7));
}

#[test]
fn parse_u64_max_boundary() {
    assert_eq!(parse_u64_from_text("18446744073709551615"), Ok(u64::MAX));
    assert_eq!(
        parse_u64_from_text("18446744073709551616"),
        Err(FieldError::MalformedNumber)
    );
}

#[test]
fn parse_u64_rejects_bad_text() {
    assert_eq!(parse_u64_from_text(""), Err(FieldError::MalformedNumber));
    assert_eq!(parse_u64_from_text("12a"), Err(FieldError::MalformedNumber));
    assert_eq!(parse_u64_from_text("-5"), Err(FieldError::MalformedNumber));
    assert_eq!(parse_u64_from_text("1 2"), Err(FieldError::MalformedNumber));
}

#[test]
fn parse_u64_round_trips_with_leading_zeros_stripped() {
    let v = parse_u64_from_text("00123").unwrap();
    assert_eq!(u64_to_dec_text(v), "123");
    let z = parse_u64_from_text("0").unwrap();
    assert_eq!(u64_to_dec_text(z), "0");
    let m = parse_u64_from_text("18446744073709551615").unwrap();
    assert_eq!(u64_to_dec_text(m), "18446744073709551615");
}

#[test]
fn u256_from_dec_str_small() {
    let v = U256::from_dec_str("1000000000000000000").unwrap();
    assert_eq!(v.w0, 1_000_000_000_000_000_000);
    assert_eq!((v.w1, v.w2, v.w3), (0, 0, 0));
}

#[test]
fn u256_from_dec_str_carries_across_limbs() {
    // 2^64 = 18446744073709551616 occupies the second limb exactly.
    let v = U256::from_dec_str("18446744073709551616").unwrap();
    assert_eq!((v.w0, v.w1, v.w2, v.w3), (0, 1, 0, 0));
}

#[test]
fn u256_from_dec_str_boundary() {
    let max = "115792089237316195423570985008687907853269984665640564039457584007913129639935";
    let v = U256::from_dec_str(max).unwrap();
    assert_eq!((v.w0, v.w1, v.w2, v.w3), (u64::MAX, u64::MAX, u64::MAX, u64::MAX));
    let over = "115792089237316195423570985008687907853269984665640564039457584007913129639936";
    assert_eq!(U256::from_dec_str(over), Err(FieldError::MalformedNumber));
    assert_eq!(U256::from_dec_str(""), Err(FieldError::MalformedNumber));
    assert_eq!(U256::from_dec_str("12.5"), Err(FieldError::MalformedNumber));
}

#[test]
fn u256_as_u64_truncates() {
    let v = U256 { w0: 7, w1: 3, w2: 0, w3: 0 };
    assert_eq!(v.as_u64(), 7);
}

#[test]
fn scale_divides_by_power_of_ten() {
    let v = U256::from_dec_str("1000000000000000000").unwrap();
    let s = scale_token_amount(v, 18).unwrap();
    assert_eq!((s.w0, s.w1, s.w2, s.w3), (1, 0, 0, 0));
}

#[test]
fn scale_truncates_fraction() {
    let v = U256::from_dec_str("19").unwrap();
    let s = scale_token_amount(v, 1).unwrap();
    assert_eq!(s.w0, 1);
}

#[test]
fn scale_by_zero_is_identity() {
    let v = U256::from_dec_str("12345").unwrap();
    assert_eq!(scale_token_amount(v, 0), Ok(v));
}

#[test]
fn scale_large_exponent() {
    // 10^38 still divides; the quotient of a 2^64-sized value is zero.
    let v = U256::from_dec_str("18446744073709551615").unwrap();
    let s = scale_token_amount(v, 38).unwrap();
    assert_eq!((s.w0, s.w1, s.w2, s.w3), (0, 0, 0, 0));
}

#[test]
fn scale_overflowing_exponent_fails() {
    let v = U256::from_dec_str("1").unwrap();
    assert_eq!(scale_token_amount(v, 39), Err(FieldError::MalformedNumber));
}
