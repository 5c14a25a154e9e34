use codex_usage::numfmt::{i64_to_dec, money_to_dec, u64_to_dec};

#[test]
fn test_u64_decimal() {
    assert_eq!(u64_to_dec(0), "0");
    assert_eq!(u64_to_dec(7), "7");
    assert_eq!(u64_to_dec(10), "10");
    assert_eq!(u64_to_dec(10_080), "10080");
    assert_eq!(u64_to_dec(u64::MAX), "18446744073709551615");
}

#[test]
fn test_i64_decimal() {
    assert_eq!(i64_to_dec(0), "0");
    assert_eq!(i64_to_dec(-5), "-5");
    assert_eq!(i64_to_dec(12_345), "12345");
    assert_eq!(i64_to_dec(i64::MIN), "-9223372036854775808");
}

#[test]
fn test_money_two_decimal_places() {
    assert_eq!(money_to_dec(0), "$0.00");
    assert_eq!(money_to_dec(5), "$0.05");
    assert_eq!(money_to_dec(50), "$0.50");
    assert_eq!(money_to_dec(1_234), "$12.34");
    assert_eq!(money_to_dec(-305), "$-3.05");
}
