use casperflow::amount::Amount;
use odra_core::casper_types::U256;

fn from_u256(x: U256) -> Amount {
    Amount::from_words(x.0[0], x.0[1], x.0[2], x.0[3])
}

fn to_u256(a: Amount) -> U256 {
    let w = a.words();
    U256([w.0, w.1, w.2, w.3])
}

fn largest() -> Amount {
    Amount::from_words(u64::MAX, u64::MAX, u64::MAX, u64::MAX)
}

#[test]
fn sum_of_small_amounts() {
    let a = Amount::from_u64(100);
    let b = Amount::from_u64(50);
    assert_eq!(a.checked_add(b), Some(Amount::from_u64(150)));
}

#[test]
fn sum_carries_into_the_second_word() {
    let a = Amount::from_u64(u64::MAX);
    let b = Amount::from_u64(1);
    assert_eq!(a.checked_add(b), Some(Amount::from_words(0, 1, 0, 0)));
}

#[test]
fn sum_past_the_largest_amount_is_none() {
    assert_eq!(largest().checked_add(Amount::from_u64(1)), None);
    assert_eq!(largest().checked_add(Amount::zero()), Some(largest()));
}

#[test]
fn difference_of_amounts() {
    let a = Amount::from_u64(500);
    let b = Amount::from_u64(20);
    assert_eq!(a.checked_sub(b), Some(Amount::from_u64(480)));
    assert_eq!(b.checked_sub(a), None);
    assert_eq!(a.checked_sub(a), Some(Amount::zero()));
}

#[test]
fn difference_borrows_from_the_second_word() {
    let a = Amount::from_words(0, 1, 0, 0);
    assert_eq!(a.checked_sub(Amount::from_u64(1)), Some(Amount::from_u64(u64::MAX)));
}

#[test]
fn product_of_amounts() {
    let price = Amount::from_u64(1_000_000);
    let units = Amount::from_u64(1000);
    assert_eq!(price.checked_mul(units), Some(Amount::from_u64(1_000_000_000)));
    assert_eq!(price.checked_mul(Amount::zero()), Some(Amount::zero()));
}

#[test]
fn product_spills_into_the_second_word() {
    let a = Amount::from_u64(u64::MAX);
    // (2^64 - 1)^2 = 2^128 - 2^65 + 1
    assert_eq!(a.checked_mul(a), Some(Amount::from_words(1, u64::MAX - 1, 0, 0)));
}

#[test]
fn product_past_the_largest_amount_is_none() {
    let half = Amount::from_words(0, 0, 1, 0);
    assert_eq!(half.checked_mul(half), None);
    assert_eq!(largest().checked_mul(Amount::from_u64(2)), None);
    assert_eq!(largest().checked_mul(Amount::from_u64(1)), Some(largest()));
}

#[test]
fn quotient_rounds_down() {
    let a = Amount::from_u64(1_000_003);
    assert_eq!(a.checked_div(Amount::from_u64(10)), Some(Amount::from_u64(100_000)));
    assert_eq!(a.checked_div(Amount::from_u64(1)), Some(a));
    assert_eq!(Amount::from_u64(9).checked_div(Amount::from_u64(10)), Some(Amount::zero()));
}

#[test]
fn quotient_by_zero_is_none() {
    assert_eq!(Amount::from_u64(7).checked_div(Amount::zero()), None);
}

#[test]
fn from_u128_splits_into_two_words() {
    let x: u128 = (7u128 << 64) + 9;
    assert_eq!(Amount::from_u128(x), Amount::from_words(9, 7, 0, 0));
    assert_eq!(Amount::from_u128(u128::MAX), Amount::from_words(u64::MAX, u64::MAX, 0, 0));
    assert_eq!(Amount::from_u128(5), Amount::from_u64(5));
}

#[test]
fn words_give_back_what_was_put_in() {
    let a = Amount::from_words(1, 2, 3, 4);
    assert_eq!(a.words(), (1, 2, 3, 4));
    assert_eq!(Amount::zero().words(), (0, 0, 0, 0));
}

#[test]
fn zero_is_zero() {
    assert!(Amount::zero().is_zero());
    assert!(Amount::from_u64(0).is_zero());
    assert!(!Amount::from_u64(1).is_zero());
    assert!(!Amount::from_words(0, 0, 0, 1).is_zero());
}

#[test]
fn order_goes_by_the_highest_word_first() {
    let small = Amount::from_words(u64::MAX, 0, 0, 0);
    let big = Amount::from_words(0, 1, 0, 0);
    assert!(small.le(&big));
    assert!(small.lt(&big));
    assert!(!big.le(&small));
    assert!(!big.lt(&small));
    assert!(big.le(&big));
    assert!(!big.lt(&big));
    let top = Amount::from_words(0, 0, 0, 1);
    assert!(Amount::from_words(u64::MAX, u64::MAX, u64::MAX, 0).lt(&top));
}

#[test]
fn order_agrees_with_u256() {
    let samples = [
        U256::zero(),
        U256::one(),
        U256::from(u64::MAX),
        U256::from(u128::MAX),
        U256::MAX,
        U256([5, 0, 9, 0]),
        U256([0, 0, 9, 1]),
    ];
    for x in samples {
        for y in samples {
            assert_eq!(from_u256(x).le(&from_u256(y)), x <= y);
            assert_eq!(from_u256(x).lt(&from_u256(y)), x < y);
        }
    }
}

#[test]
fn arithmetic_agrees_with_u256() {
    let samples = [
        U256::zero(),
        U256::one(),
        U256::from(10_000u64),
        U256::from(u64::MAX),
        U256::from(u128::MAX),
        U256::MAX,
        U256([5, 0, 9, 0]),
    ];
    for x in samples {
        for y in samples {
            let a = from_u256(x);
            let b = from_u256(y);
            assert_eq!(a.checked_add(b).map(to_u256), x.checked_add(y));
            assert_eq!(a.checked_sub(b).map(to_u256), x.checked_sub(y));
            assert_eq!(a.checked_mul(b).map(to_u256), x.checked_mul(y));
            assert_eq!(a.checked_div(b).map(to_u256), x.checked_div(y));
        }
    }
}

#[test]
fn mul_div_of_small_numbers() {
    let a = Amount::from_u64(51_000_000_000);
    assert_eq!(a.mul_div(100, 10_000), Some(Amount::from_u64(510_000_000)));
    assert_eq!(a.mul_div(0, 10_000), Some(Amount::zero()));
    assert_eq!(Amount::from_u64(7).mul_div(3, 2), Some(Amount::from_u64(10)));
    assert_eq!(Amount::from_u64(9999).mul_div(1, 10_000), Some(Amount::zero()));
}

#[test]
fn mul_div_never_forms_the_product() {
    // largest * 100 does not fit in 256 bits; a hundredth of it does.
    let expected = to_u256(largest()) / U256::from(100u64);
    assert_eq!(largest().mul_div(1, 100).map(to_u256), Some(expected));
    assert_eq!(largest().mul_div(100, 10_000).map(to_u256), Some(expected));
    assert_eq!(largest().mul_div(10_000, 10_000), Some(largest()));
}

#[test]
fn mul_div_past_the_largest_amount_is_none() {
    assert_eq!(largest().mul_div(10_001, 10_000), None);
    assert_eq!(largest().mul_div(2, 1), None);
}

#[test]
fn mul_div_agrees_with_wide_arithmetic() {
    let samples: [(u128, u128, u64); 5] = [
        (1_000_000_000, 800 * 31_536_000, 315_360_000_000),
        (999_999_999_999, 123_456_789, 97),
        (u64::MAX as u128, u64::MAX as u128, 3),
        (12345, 67890, 1),
        (1, 1, u64::MAX),
    ];
    for (a, k, d) in samples {
        let wide = U256::from(a) * U256::from(k) / U256::from(d);
        assert_eq!(Amount::from_u128(a).mul_div(k, d).map(to_u256), Some(wide));
    }
}

#[test]
fn narrowing_to_64_bits() {
    assert_eq!(Amount::from_u64(7).to_u64(), Some(7));
    assert_eq!(Amount::zero().to_u64(), Some(0));
    assert_eq!(Amount::from_u64(u64::MAX).to_u64(), Some(u64::MAX));
    assert_eq!(Amount::from_words(0, 1, 0, 0).to_u64(), None);
    assert_eq!(Amount::from_words(5, 0, 0, 1).to_u64(), None);
}
