use cosmos_coins::amount::Amount;
use cosmos_coins::errors::Error;

const MAX: &str = "115792089237316195423570985008687907853269984665640564039457584007913129639935";

#[test]
fn amount_reads_and_writes_decimal() {
    assert_eq!(Amount::from_str("0").unwrap(), Amount::zero());
    assert_eq!(Amount::from_str("000123").unwrap(), Amount::from(123u64));
    assert_eq!(Amount::from_str("").unwrap(), Amount::zero());
    assert_eq!(Amount::from(18446744073709551615u64).to_string(), "18446744073709551615");
    assert_eq!(Amount::zero().to_string(), "0");
    let big = Amount::from_str("340282366920938463463374607431768211456").unwrap();
    assert_eq!(big.to_string(), "340282366920938463463374607431768211456");
    assert_eq!(Amount::from_str(MAX).unwrap().to_string(), MAX);
}

#[test]
fn amount_rejects_other_text() {
    assert_eq!(Amount::from_str("12a"), Err(Error::InvalidAmount("12a".to_string())));
    assert_eq!(Amount::from_str("-1"), Err(Error::InvalidAmount("-1".to_string())));
    assert_eq!(Amount::from_str("+1"), Err(Error::InvalidAmount("+1".to_string())));
    assert_eq!(Amount::from_str(" 1"), Err(Error::InvalidAmount(" 1".to_string())));
    assert_eq!(Amount::from_str("١"), Err(Error::InvalidAmount("١".to_string())));
    let over = "115792089237316195423570985008687907853269984665640564039457584007913129639936";
    assert_eq!(Amount::from_str(over), Err(Error::InvalidAmount(over.to_string())));
}

#[test]
fn amount_checked_arithmetic() {
    let max = Amount::from_str(MAX).unwrap();
    let one = Amount::from(1u64);
    assert_eq!(max.checked_add(one), None);
    assert_eq!(max.checked_add(Amount::zero()), Some(max));
    assert_eq!(Amount::from(2u64).checked_add(Amount::from(3u64)), Some(Amount::from(5u64)));
    assert_eq!(Amount::from(2u64).checked_sub(Amount::from(3u64)), None);
    assert_eq!(Amount::from(3u64).checked_sub(Amount::from(3u64)), Some(Amount::zero()));
    assert_eq!(Amount::from(7u64).checked_sub(Amount::from(3u64)), Some(Amount::from(4u64)));
    assert_eq!(max.checked_mul(2), None);
    assert_eq!(max.checked_mul(1), Some(max));
    assert_eq!(Amount::from(6u64).checked_mul(7), Some(Amount::from(42u64)));
}

#[test]
fn amount_carries_between_words() {
    let word = Amount::from(u64::MAX);
    let sum = word.add(Amount::from(1u64));
    assert_eq!(sum.to_string(), "18446744073709551616");
    assert_eq!(sum.sub(Amount::from(1u64)), word);
    assert_eq!(word.mul(u64::MAX).to_string(), "340282366920938463426481119284349108225");
    assert_eq!(sum.div(2).to_string(), "9223372036854775808");
    assert_eq!(Amount::from(7u64).div(2), Amount::from(3u64));
    assert_eq!(Amount::from(7u64).saturating_sub(Amount::from(9u64)), Amount::zero());
    assert_eq!(Amount::from(9u64).saturating_sub(Amount::from(7u64)), Amount::from(2u64));
}

#[test]
fn amount_order() {
    let small = Amount::from(u64::MAX);
    let large = Amount::from_str("18446744073709551616").unwrap();
    assert!(small.lt(&large));
    assert!(!large.lt(&small));
    assert!(large.gt(&small));
    assert!(!small.lt(&small));
    assert!(small.is_equal(&small));
    assert!(!small.is_equal(&large));
    assert!(small < large);
    assert!(Amount::from(2u64) > Amount::from(1u64));
    assert!(Amount::zero().is_zero());
    assert!(!large.is_zero());
    assert!(large.is_positive());
    assert!(Amount::zero().is_positive());
    assert_eq!(Amount::from_u64(9), Amount::from(9u64));
}
