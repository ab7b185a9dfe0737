use casperflow::accrual::{checked_yield, compute_fee, BASIS_POINTS, SECONDS_PER_YEAR};
use casperflow::amount::Amount;

#[test]
fn constants_of_the_formulas() {
    assert_eq!(SECONDS_PER_YEAR, 31_536_000);
    assert_eq!(BASIS_POINTS, 10_000);
}

#[test]
fn a_year_at_eight_percent() {
    let principal = Amount::from_u64(1_000_000_000);
    assert_eq!(
        checked_yield(principal, 800, 31_536_000),
        Some(Amount::from_u64(80_000_000))
    );
}

#[test]
fn yield_is_rounded_down() {
    // 1000 * 800 * 1 / 315_360_000_000 is below one unit.
    assert_eq!(checked_yield(Amount::from_u64(1000), 800, 1), Some(Amount::zero()));
    // 315_360_000_000 * 1 * 1 / 315_360_000_000 is exactly one.
    assert_eq!(
        checked_yield(Amount::from_u64(315_360_000_000), 1, 1),
        Some(Amount::from_u64(1))
    );
    assert_eq!(
        checked_yield(Amount::from_u64(315_359_999_999), 1, 1),
        Some(Amount::zero())
    );
    assert_eq!(
        checked_yield(Amount::from_u64(630_719_999_999), 1, 1),
        Some(Amount::from_u64(1))
    );
}

#[test]
fn no_time_no_principal_no_rate_no_yield() {
    let principal = Amount::from_u64(1_000_000_000);
    assert_eq!(checked_yield(principal, 800, 0), Some(Amount::zero()));
    assert_eq!(checked_yield(principal, 0, 31_536_000), Some(Amount::zero()));
    assert_eq!(checked_yield(Amount::zero(), 800, 31_536_000), Some(Amount::zero()));
}

#[test]
fn yield_of_two_periods_is_the_whole_or_one_less() {
    let principal = Amount::from_u64(1_234_567_891);
    let rate = 777;
    for (t1, t2) in [(1u64, 1u64), (1000, 2000), (31_536_000, 1), (86_400, 86_401), (5, 31_535_995)] {
        let first = checked_yield(principal, rate, t1).unwrap();
        let second = checked_yield(principal, rate, t2).unwrap();
        let whole = checked_yield(principal, rate, t1 + t2).unwrap();
        let split = first.checked_add(second).unwrap();
        assert!(split.le(&whole));
        assert!(whole.le(&split.checked_add(Amount::from_u64(1)).unwrap()));
    }
}

#[test]
fn yield_that_does_not_fit_is_none() {
    let largest = Amount::from_words(u64::MAX, u64::MAX, u64::MAX, u64::MAX);
    assert_eq!(checked_yield(largest, u64::MAX, u64::MAX), None);
    // A product beyond 256 bits is no obstacle while the yield fits.
    assert!(checked_yield(largest, 2000, 31_536_000).is_some());
}

#[test]
fn fee_of_one_percent() {
    let total = Amount::from_u64(51_000_000_000);
    assert_eq!(compute_fee(total, 100), Amount::from_u64(510_000_000));
}

#[test]
fn fee_is_rounded_down() {
    assert_eq!(compute_fee(Amount::from_u64(9_999), 1), Amount::zero());
    assert_eq!(compute_fee(Amount::from_u64(10_000), 1), Amount::from_u64(1));
    assert_eq!(compute_fee(Amount::from_u64(19_999), 1), Amount::from_u64(1));
    assert_eq!(compute_fee(Amount::from_u64(199), 1000), Amount::from_u64(19));
}

#[test]
fn fee_at_the_ends_of_the_range() {
    let total = Amount::from_u64(123_456);
    assert_eq!(compute_fee(total, 0), Amount::zero());
    assert_eq!(compute_fee(total, 10_000), total);
    let largest = Amount::from_words(u64::MAX, u64::MAX, u64::MAX, u64::MAX);
    assert_eq!(compute_fee(largest, 10_000), largest);
}

#[test]
fn fee_and_the_rest_make_the_total() {
    let totals = [0u64, 1, 99, 10_000, 51_000_000_000, u64::MAX];
    let rates = [0u64, 1, 100, 999, 1000, 5000, 9999, 10_000];
    for t in totals {
        for bps in rates {
            let total = Amount::from_u64(t);
            let fee = compute_fee(total, bps);
            let rest = total.checked_sub(fee).unwrap();
            assert_eq!(fee.checked_add(rest), Some(total));
        }
    }
}
