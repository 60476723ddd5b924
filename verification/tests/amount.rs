use rust_decimal::Decimal;
use rust_tx_ledger::ledger::amount::Amount;

fn amount(s: &str) -> Amount {
    let d = Decimal::from_str_exact(s).unwrap();
    Amount::from_parts(d.mantissa(), d.scale()).unwrap()
}

#[test]
fn display_is_truncated_to_4dp() {
    assert_eq!(amount("1").to_string(), "1.0000");
    assert_eq!(amount("1.234567").to_string(), "1.2345");
    assert_eq!(amount("-0.00991").to_string(), "-0.0099");
}

#[test]
fn arithmetic_is_exact_then_display_truncates() {
    let a = amount("0.10005");
    let b = amount("0.10005");

    assert_eq!((a + b).to_string(), "0.2001");
}

#[test]
fn display_pads_short_fractions_and_keeps_sign() {
    assert_eq!(amount("1.5").to_string(), "1.5000");
    assert_eq!(amount("1.50").to_string(), "1.5000");
    assert_eq!(amount("0").to_string(), "0.0000");
    assert_eq!(amount("0.000").to_string(), "0.0000");
    assert_eq!(amount("-1").to_string(), "-1.0000");
    assert_eq!(amount("-2.5").to_string(), "-2.5000");
    assert_eq!(amount("12345678901234567890.123456789").to_string(), "12345678901234567890.1234");
}

#[test]
fn display_of_tiny_negative_shows_no_sign() {
    // Truncated toward zero, -0.00001 is zero, shown without a sign.
    assert_eq!(amount("-0.00001").to_string(), "0.0000");
    assert_eq!(amount("0.99999").to_string(), "0.9999");
    assert_eq!(amount("-0.99999").to_string(), "-0.9999");
}

#[test]
fn parse_keeps_every_digit() {
    let a = Amount::parse("1.234567").unwrap();
    assert_eq!(a.to_string(), "1.2345");
    let b = Amount::parse("0.00005").unwrap();
    let c = a + b;
    assert_eq!(c.to_string(), "1.2346");
    assert_eq!(Amount::parse("2").unwrap().to_string(), "2.0000");
}

#[test]
fn parse_rejects_text_that_is_not_a_decimal() {
    assert!(Amount::parse("abc").is_err());
    assert!(Amount::parse("").is_err());
    assert!(Amount::parse("1.2.3").is_err());
    let e = Amount::parse("1x").unwrap_err();
    assert!(!e.to_string().is_empty());
}

#[test]
fn add_and_sub_are_exact() {
    let a = amount("10");
    let b = amount("2.5");
    assert_eq!((a - b).to_string(), "7.5000");
    assert_eq!((b - a).to_string(), "-7.5000");
    assert_eq!((a + b).to_string(), "12.5000");
    let tiny = amount("0.00000000000000000000000001");
    let sum = a + tiny;
    assert_eq!((sum - a).to_string(), "0.0000");
    assert!(!(sum - a).is_zero());
    assert!((sum - a - tiny).is_zero());
}

#[test]
fn checked_arithmetic_reports_overflow() {
    let max = Amount::from_parts(79228162514264337593543950335, 0).unwrap();
    let one = amount("1");
    assert!(max.checked_add(one).is_none());
    assert!(max.checked_add(amount("-1")).is_some());
    let min = Amount::from_parts(-79228162514264337593543950335, 0).unwrap();
    assert!(min.checked_sub(one).is_none());
    assert_eq!(one.checked_add(one).unwrap().to_string(), "2.0000");
    assert_eq!(one.checked_sub(amount("0.5")).unwrap().to_string(), "0.5000");
}

#[test]
fn from_parts_rejects_what_a_decimal_cannot_hold() {
    assert!(Amount::from_parts(79228162514264337593543950336, 0).is_none());
    assert!(Amount::from_parts(1, 29).is_none());
    assert!(Amount::from_parts(1, 28).is_some());
}

#[test]
fn comparison_and_sign_follow_the_value() {
    assert!(amount("1.5").is_less_than(&amount("2")));
    assert!(!amount("2").is_less_than(&amount("2.00")));
    assert!(amount("-3").is_less_than(&amount("0.0001")));
    assert!(amount("-0.01").is_sign_negative());
    assert!(!amount("0").is_sign_negative());
    assert!(amount("0.00").is_zero());
    assert!(!amount("0.01").is_zero());
    assert!(Amount::zero().is_zero());
    assert_eq!(Amount::default().to_string(), "0.0000");
}

#[test]
fn equality_is_by_value() {
    assert_eq!(amount("1.0"), amount("1.00"));
    assert_eq!(amount("0"), Amount::zero());
    assert_ne!(amount("1.0001"), amount("1"));
    assert_ne!(amount("-1"), amount("1"));
}

#[test]
fn result_parts_follow_the_decimal_arithmetic() {
    let zero = Amount::default();
    assert_eq!(zero.parts(), (0, 0));
    let seven = Amount::parse("7").unwrap();
    let two_and_a_half = Amount::parse("2.5").unwrap();
    assert_eq!(two_and_a_half.parts(), (25, 1));
    // A zero operand gives the other operand as it is.
    assert_eq!(zero.checked_add(two_and_a_half).unwrap().parts(), (25, 1));
    assert_eq!(zero.checked_sub(two_and_a_half).unwrap().parts(), (-25, 1));
    assert_eq!(seven.checked_sub(zero).unwrap().parts(), (7, 0));
    // Non-zero operands meet at the larger scale.
    assert_eq!(seven.checked_add(two_and_a_half).unwrap().parts(), (95, 1));
    assert_eq!(seven.checked_sub(two_and_a_half).unwrap().parts(), (45, 1));
    assert_eq!((seven - seven).parts(), (0, 0));
}

#[test]
fn parse_reads_plain_decimals_exactly() {
    assert_eq!(Amount::parse("-0.0001").unwrap().parts(), (-1, 4));
    assert_eq!(Amount::parse("10").unwrap().parts(), (10, 0));
    assert_eq!(Amount::parse("1.5000").unwrap().parts(), (15000, 4));
}

#[test]
fn sum_laws_on_concrete_values() {
    let a = Amount::parse("1.25").unwrap();
    let b = Amount::parse("-0.5").unwrap();
    let c = Amount::parse("3").unwrap();
    let zero = Amount::default();
    assert_eq!((a + b).parts(), (b + a).parts());
    assert_eq!(((a + b) + c).to_string(), (a + (b + c)).to_string());
    assert_eq!(((a + b) + c).to_string(), "3.7500");
    assert_eq!((zero + a).parts(), a.parts());
    assert_eq!((a + zero).parts(), a.parts());
    assert_eq!((a - zero).parts(), a.parts());
    assert!((a - a).is_zero());
    assert!((b - b).is_zero());
    // A negative amount taken from a larger one never leaves less than zero.
    assert!(!(Amount::parse("-2").unwrap() - Amount::parse("-3").unwrap()).is_sign_negative());
}

#[test]
fn sums_that_must_change_scale_stay_exact_where_a_decimal_holds_them() {
    let big = Amount::from_parts(8000000000000000000000000000, 0).unwrap();
    let one = Amount::from_parts(10, 1).unwrap();
    let minus_one = Amount::from_parts(-10, 1).unwrap();
    assert_eq!(big.checked_add(one).unwrap().parts(), (8000000000000000000000000001, 0));
    assert_eq!(big.checked_sub(minus_one).unwrap().parts(), (8000000000000000000000000001, 0));
    // Where no decimal holds the exact sum, a digit is dropped.
    let half = Amount::from_parts(5, 1).unwrap();
    assert_eq!(big.checked_add(half).unwrap().parts(), (8000000000000000000000000000, 0));
}
