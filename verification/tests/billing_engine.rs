use casperflow::amount::Amount;
use casperflow::billing_engine::{
    BillingEngine, InvoiceStatus, PaymentRecord, DEFAULT_PROTOCOL_FEE_BPS,
    MAX_PROTOCOL_FEE_BPS, PAID_FROM_STAKE, PAID_FROM_WALLET,
};
use casperflow::error::Error;
use casperflow::identity::Address;

fn owner() -> Address {
    Address::account(0, 1)
}

fn subscriber() -> Address {
    Address::account(0, 2)
}

fn merchant() -> Address {
    Address::account(0, 3)
}

fn stake_ledger() -> Address {
    Address::contract(0, 4)
}

fn amount(n: u64) -> Amount {
    Amount::from_u64(n)
}

fn id(n: u64) -> Amount {
    Amount::from_u64(n)
}

fn engine_with_invoice() -> BillingEngine {
    let mut engine = BillingEngine::init(owner());
    engine.create_invoice(
        id(1),
        id(1),
        subscriber(),
        merchant(),
        amount(50_000_000_000),
        amount(1_000_000),
        amount(1000),
        0,
        2592000,
        5,
    );
    engine
}

#[test]
fn test_create_invoice() {
    let mut contract = BillingEngine::init(owner());

    let created = contract.create_invoice(
        id(1),
        id(1),
        subscriber(),
        merchant(),
        amount(50_000_000_000u64),
        amount(1_000_000u64),
        amount(1000),
        0,
        2592000,
        0,
    );
    let invoice_id = created.invoice_id;

    assert_eq!(invoice_id, id(1));

    let invoice = contract.get_invoice(invoice_id).unwrap();
    assert_eq!(invoice.total_amount, amount(51_000_000_000u64));
    assert_eq!(invoice.status, InvoiceStatus::Pending);
}

#[test]
fn a_new_engine_is_empty() {
    let engine = BillingEngine::init(owner());
    assert_eq!(engine.total_invoices(), 0);
    assert_eq!(engine.get_protocol_fee_bps(), 100);
    assert_eq!(DEFAULT_PROTOCOL_FEE_BPS, 100);
    assert_eq!(MAX_PROTOCOL_FEE_BPS, 1000);
    assert_eq!(engine.get_fee_recipient(), owner());
    assert_eq!(engine.get_invoice(id(1)), None);
    assert_eq!(engine.get_invoice(id(0)), None);
    assert_eq!(engine.get_merchant_revenue(merchant()), Amount::zero());
    assert_eq!(engine.get_user_invoices(subscriber()), Vec::<Amount>::new());
}

#[test]
fn an_invoice_holds_what_it_was_made_of() {
    let engine = engine_with_invoice();
    let invoice = engine.get_invoice(id(1)).unwrap();
    assert_eq!(invoice.id, id(1));
    assert_eq!(invoice.subscription_id, id(1));
    assert_eq!(invoice.plan_id, id(1));
    assert_eq!(invoice.subscriber, subscriber());
    assert_eq!(invoice.merchant, merchant());
    assert_eq!(invoice.base_amount, amount(50_000_000_000));
    assert_eq!(invoice.usage_amount, amount(1_000_000_000));
    assert_eq!(invoice.total_amount, amount(51_000_000_000));
    assert_eq!(invoice.usage_units, amount(1000));
    assert_eq!(invoice.period_start, 0);
    assert_eq!(invoice.period_end, 2592000);
    assert_eq!(invoice.created_at, 5);
    assert_eq!(invoice.paid_at, 0);
    assert_eq!(invoice.payment_method, PAID_FROM_WALLET);
    assert_eq!(invoice.status, InvoiceStatus::Pending);
    assert_eq!(invoice.payment_tx, "");
    assert_eq!(engine.total_invoices(), 1);
}

#[test]
fn creating_an_invoice_announces_it() {
    let mut engine = BillingEngine::init(owner());
    let created =
        engine.create_invoice(id(9), id(1), subscriber(), merchant(), amount(10), amount(3), amount(4), 0, 1, 0);
    assert_eq!(created.invoice_id, id(1));
    assert_eq!(created.subscription_id, id(9));
    assert_eq!(created.total_amount, amount(22));
    let again =
        engine.create_invoice(id(9), id(1), subscriber(), merchant(), amount(10), amount(0), amount(4), 1, 2, 0);
    assert_eq!(again.invoice_id, id(2));
    assert_eq!(again.total_amount, amount(10));
}

#[test]
fn invoices_are_listed_by_subscription_payer_and_merchant() {
    let other = Address::account(0, 8);
    let mut engine = BillingEngine::init(owner());
    engine.create_invoice(id(1), id(1), subscriber(), merchant(), amount(1), amount(0), amount(0), 0, 1, 0);
    engine.create_invoice(id(2), id(1), other, merchant(), amount(1), amount(0), amount(0), 0, 1, 0);
    engine.create_invoice(id(1), id(1), subscriber(), other, amount(1), amount(0), amount(0), 1, 2, 0);
    assert_eq!(engine.get_subscription_invoices(id(1)), vec![id(1), id(3)]);
    assert_eq!(engine.get_subscription_invoices(id(2)), vec![id(2)]);
    assert_eq!(engine.get_subscription_invoices(id(3)), Vec::<Amount>::new());
    assert_eq!(engine.get_user_invoices(subscriber()), vec![id(1), id(3)]);
    assert_eq!(engine.get_user_invoices(other), vec![id(2)]);
    assert_eq!(engine.get_merchant_invoices(merchant()), vec![id(1), id(2)]);
    assert_eq!(engine.get_merchant_invoices(other), vec![id(3)]);
}

#[test]
fn paying_splits_the_total_into_fee_and_the_rest() {
    let mut engine = engine_with_invoice();
    let (settlement, processed) =
        engine.pay_invoice(subscriber(), amount(51_000_000_000), id(1), 99).unwrap();
    assert_eq!(settlement.fee, amount(510_000_000));
    assert_eq!(settlement.merchant_amount, amount(50_490_000_000));
    assert_eq!(settlement.merchant, merchant());
    assert_eq!(settlement.fee_recipient, owner());
    assert_eq!(settlement.paid.invoice_id, id(1));
    assert_eq!(settlement.paid.amount, amount(51_000_000_000));
    assert_eq!(settlement.paid.payment_method, PAID_FROM_WALLET);
    assert_eq!(processed.from, subscriber());
    assert_eq!(processed.to, merchant());
    assert_eq!(processed.amount, amount(50_490_000_000));

    let invoice = engine.get_invoice(id(1)).unwrap();
    assert_eq!(invoice.status, InvoiceStatus::Paid);
    assert_eq!(invoice.paid_at, 99);
    assert_eq!(invoice.payment_method, PAID_FROM_WALLET);
    assert_eq!(invoice.total_amount, amount(51_000_000_000));
    assert_eq!(engine.get_merchant_revenue(merchant()), amount(50_490_000_000));
    assert_eq!(engine.get_merchant_revenue(owner()), Amount::zero());
}

#[test]
fn a_settlement_leaves_one_record() {
    let mut engine = engine_with_invoice();
    assert_eq!(engine.total_payment_records(), 0);
    assert_eq!(engine.get_payment_record(id(1)), None);
    let (settlement, _) = engine.pay_invoice(subscriber(), amount(51_000_000_000), id(1), 99).unwrap();
    let expected = PaymentRecord {
        id: id(1),
        invoice_id: id(1),
        payer: subscriber(),
        amount: amount(51_000_000_000),
        payment_method: PAID_FROM_WALLET,
        paid_at: 99,
    };
    assert_eq!(settlement.record, expected);
    assert_eq!(engine.get_payment_record(id(1)), Some(expected));
    assert_eq!(engine.get_payment_record(id(0)), None);
    assert_eq!(engine.get_payment_record(id(2)), None);
    assert_eq!(engine.total_payment_records(), 1);
    assert!(engine.pay_invoice(subscriber(), amount(51_000_000_000), id(1), 100).is_err());
    assert!(engine.fail_invoice(owner(), id(1), String::new()).is_err());
    assert_eq!(engine.total_payment_records(), 1);
    assert_eq!(engine.get_merchant_revenue(merchant()), amount(50_490_000_000));
}

#[test]
fn a_failure_leaves_no_record() {
    let mut engine = engine_with_invoice();
    engine.fail_invoice(owner(), id(1), String::from("lapsed")).unwrap();
    assert_eq!(engine.total_payment_records(), 0);
    engine.set_stake_to_pay(owner(), stake_ledger()).unwrap();
    engine.create_invoice(id(1), id(1), subscriber(), merchant(), amount(10), amount(0), amount(0), 0, 1, 0);
    let settlement = engine.pay_invoice_from_staking(stake_ledger(), id(2), subscriber(), 7).unwrap();
    assert_eq!(settlement.record.id, id(1));
    assert_eq!(settlement.record.invoice_id, id(2));
    assert_eq!(settlement.record.payment_method, PAID_FROM_STAKE);
    assert_eq!(engine.total_payment_records(), 1);
}

#[test]
fn settlement_fits_unless_a_total_would_leave_the_range() {
    let largest = Amount::from_words(u64::MAX, u64::MAX, u64::MAX, u64::MAX);
    let mut engine = BillingEngine::init(owner());
    engine.set_protocol_fee_bps(owner(), 0).unwrap();
    engine.create_invoice(id(1), id(1), subscriber(), merchant(), largest, amount(0), amount(0), 0, 1, 0);
    engine.create_invoice(id(1), id(1), subscriber(), merchant(), amount(1), amount(0), amount(0), 0, 1, 0);
    assert!(engine.settlement_fits(id(1)));
    assert!(engine.settlement_fits(id(2)));
    assert!(engine.settlement_fits(id(3)));
    engine.pay_invoice(subscriber(), largest, id(1), 5).unwrap();
    assert_eq!(engine.get_merchant_revenue(merchant()), largest);
    assert!(!engine.settlement_fits(id(2)));
}

#[test]
fn paying_more_than_the_total_credits_the_total() {
    let mut engine = engine_with_invoice();
    let (settlement, _) = engine.pay_invoice(subscriber(), amount(60_000_000_000), id(1), 99).unwrap();
    assert_eq!(settlement.fee.checked_add(settlement.merchant_amount), Some(amount(51_000_000_000)));
}

#[test]
fn paying_twice_is_refused() {
    let mut engine = engine_with_invoice();
    engine.pay_invoice(subscriber(), amount(51_000_000_000), id(1), 99).unwrap();
    assert_eq!(
        engine.pay_invoice(subscriber(), amount(51_000_000_000), id(1), 100),
        Err(Error::InvalidState)
    );
    assert_eq!(
        engine.pay_invoice(merchant(), Amount::zero(), id(1), 100),
        Err(Error::InvalidState)
    );
    assert_eq!(
        engine.fail_invoice(owner(), id(1), String::from("late")),
        Err(Error::InvalidState)
    );
    assert_eq!(
        engine.fail_invoice(subscriber(), id(1), String::from("late")),
        Err(Error::InvalidState)
    );
    engine.set_stake_to_pay(owner(), stake_ledger()).unwrap();
    assert_eq!(
        engine.pay_invoice_from_staking(stake_ledger(), id(1), subscriber(), 100),
        Err(Error::InvalidState)
    );
    assert_eq!(engine.get_merchant_revenue(merchant()), amount(50_490_000_000));
    assert_eq!(engine.get_invoice(id(1)).unwrap().paid_at, 99);
}

#[test]
fn paying_an_unknown_invoice_is_refused() {
    let mut engine = engine_with_invoice();
    assert_eq!(engine.pay_invoice(subscriber(), amount(1), id(0), 1), Err(Error::NotFound));
    assert_eq!(engine.pay_invoice(subscriber(), amount(1), id(2), 1), Err(Error::NotFound));
    engine.set_stake_to_pay(owner(), stake_ledger()).unwrap();
    assert_eq!(
        engine.pay_invoice_from_staking(stake_ledger(), id(2), subscriber(), 1),
        Err(Error::NotFound)
    );
    assert_eq!(
        engine.pay_invoice_from_staking(stake_ledger(), id(0), subscriber(), 1),
        Err(Error::NotFound)
    );
    assert_eq!(engine.fail_invoice(owner(), id(2), String::new()), Err(Error::NotFound));
    assert_eq!(engine.fail_invoice(owner(), id(0), String::new()), Err(Error::NotFound));
}

#[test]
fn a_stranger_learns_nothing_of_unknown_invoices() {
    let mut engine = engine_with_invoice();
    // No stake ledger is named yet: nobody may settle from a stake.
    assert_eq!(
        engine.pay_invoice_from_staking(stake_ledger(), id(2), subscriber(), 1),
        Err(Error::Unauthorized)
    );
    engine.set_stake_to_pay(owner(), stake_ledger()).unwrap();
    assert_eq!(
        engine.pay_invoice_from_staking(subscriber(), id(2), subscriber(), 1),
        Err(Error::Unauthorized)
    );
    assert_eq!(
        engine.pay_invoice_from_staking(subscriber(), id(1), subscriber(), 1),
        Err(Error::Unauthorized)
    );
    assert_eq!(engine.fail_invoice(subscriber(), id(2), String::new()), Err(Error::Unauthorized));
    assert_eq!(engine.fail_invoice(subscriber(), id(1), String::new()), Err(Error::Unauthorized));
    assert_eq!(engine.get_invoice(id(1)).unwrap().status, InvoiceStatus::Pending);
    assert_eq!(engine.total_payment_records(), 0);
}

#[test]
fn a_settled_invoice_is_closed_to_everyone() {
    let mut engine = engine_with_invoice();
    engine.set_stake_to_pay(owner(), stake_ledger()).unwrap();
    engine.pay_invoice_from_staking(stake_ledger(), id(1), subscriber(), 5).unwrap();
    assert_eq!(
        engine.pay_invoice_from_staking(subscriber(), id(1), merchant(), 6),
        Err(Error::InvalidState)
    );
    assert_eq!(
        engine.pay_invoice_from_staking(stake_ledger(), id(1), subscriber(), 6),
        Err(Error::InvalidState)
    );
    assert_eq!(engine.fail_invoice(subscriber(), id(1), String::new()), Err(Error::InvalidState));
    assert_eq!(engine.fail_invoice(owner(), id(1), String::new()), Err(Error::InvalidState));
    assert_eq!(engine.total_payment_records(), 1);
    assert_eq!(engine.get_merchant_revenue(merchant()), amount(50_490_000_000));
}

#[test]
fn paying_for_someone_else_is_refused() {
    let mut engine = engine_with_invoice();
    assert_eq!(
        engine.pay_invoice(merchant(), amount(51_000_000_000), id(1), 1),
        Err(Error::Unauthorized)
    );
    assert_eq!(engine.get_invoice(id(1)).unwrap().status, InvoiceStatus::Pending);
}

#[test]
fn paying_too_little_is_refused() {
    let mut engine = engine_with_invoice();
    assert_eq!(
        engine.pay_invoice(subscriber(), amount(50_999_999_999), id(1), 1),
        Err(Error::InsufficientFunds)
    );
    assert_eq!(engine.get_invoice(id(1)).unwrap().status, InvoiceStatus::Pending);
    assert_eq!(engine.get_merchant_revenue(merchant()), Amount::zero());
}

#[test]
fn settling_from_a_stake_marks_the_method() {
    let mut engine = engine_with_invoice();
    engine.set_stake_to_pay(owner(), stake_ledger()).unwrap();
    let settlement = engine.pay_invoice_from_staking(stake_ledger(), id(1), subscriber(), 42).unwrap();
    assert_eq!(settlement.fee, amount(510_000_000));
    assert_eq!(settlement.merchant_amount, amount(50_490_000_000));
    assert_eq!(settlement.paid.payment_method, PAID_FROM_STAKE);
    let invoice = engine.get_invoice(id(1)).unwrap();
    assert_eq!(invoice.status, InvoiceStatus::Paid);
    assert_eq!(invoice.payment_method, PAID_FROM_STAKE);
    assert_eq!(invoice.paid_at, 42);
    assert_eq!(engine.get_merchant_revenue(merchant()), amount(50_490_000_000));
    assert_eq!(
        engine.pay_invoice_from_staking(stake_ledger(), id(1), subscriber(), 43),
        Err(Error::InvalidState)
    );
    assert_eq!(
        engine.pay_invoice(subscriber(), amount(51_000_000_000), id(1), 43),
        Err(Error::InvalidState)
    );
}

#[test]
fn settling_from_a_stake_needs_the_named_ledger() {
    let mut engine = engine_with_invoice();
    assert_eq!(
        engine.pay_invoice_from_staking(stake_ledger(), id(1), subscriber(), 42),
        Err(Error::Unauthorized)
    );
    engine.set_stake_to_pay(owner(), stake_ledger()).unwrap();
    assert_eq!(
        engine.pay_invoice_from_staking(owner(), id(1), subscriber(), 42),
        Err(Error::Unauthorized)
    );
    assert_eq!(
        engine.pay_invoice_from_staking(stake_ledger(), id(1), merchant(), 42),
        Err(Error::Unauthorized)
    );
    assert_eq!(engine.get_invoice(id(1)).unwrap().status, InvoiceStatus::Pending);
}

#[test]
fn failing_an_invoice_moves_no_funds() {
    let mut engine = engine_with_invoice();
    assert_eq!(
        engine.fail_invoice(subscriber(), id(1), String::from("card declined")),
        Err(Error::Unauthorized)
    );
    let notice = engine.fail_invoice(owner(), id(1), String::from("card declined")).unwrap();
    assert_eq!(notice.invoice_id, id(1));
    assert_eq!(notice.reason, "card declined");
    let invoice = engine.get_invoice(id(1)).unwrap();
    assert_eq!(invoice.status, InvoiceStatus::Failed);
    assert_eq!(invoice.paid_at, 0);
    assert_eq!(engine.get_merchant_revenue(merchant()), Amount::zero());
    assert_eq!(
        engine.fail_invoice(owner(), id(1), String::from("again")),
        Err(Error::InvalidState)
    );
    assert_eq!(
        engine.pay_invoice(subscriber(), amount(51_000_000_000), id(1), 1),
        Err(Error::InvalidState)
    );
}

#[test]
fn revenue_adds_up_over_invoices() {
    let mut engine = engine_with_invoice();
    engine.create_invoice(id(1), id(1), subscriber(), merchant(), amount(199), amount(0), amount(0), 0, 1, 0);
    engine.pay_invoice(subscriber(), amount(51_000_000_000), id(1), 1).unwrap();
    let (second, _) = engine.pay_invoice(subscriber(), amount(199), id(2), 2).unwrap();
    assert_eq!(second.fee, amount(1));
    assert_eq!(second.merchant_amount, amount(198));
    assert_eq!(engine.get_merchant_revenue(merchant()), amount(50_490_000_198));
}

#[test]
fn a_fee_of_nothing_leaves_all_to_the_merchant() {
    let mut engine = engine_with_invoice();
    engine.set_protocol_fee_bps(owner(), 0).unwrap();
    let (settlement, _) = engine.pay_invoice(subscriber(), amount(51_000_000_000), id(1), 1).unwrap();
    assert_eq!(settlement.fee, Amount::zero());
    assert_eq!(settlement.merchant_amount, amount(51_000_000_000));
}

#[test]
fn the_fee_has_a_ceiling() {
    let mut engine = engine_with_invoice();
    assert_eq!(engine.set_protocol_fee_bps(owner(), 1001), Err(Error::InvalidParameter));
    assert_eq!(engine.get_protocol_fee_bps(), 100);
    assert_eq!(engine.set_protocol_fee_bps(subscriber(), 1001), Err(Error::Unauthorized));
    assert_eq!(engine.set_protocol_fee_bps(owner(), 1000), Ok(()));
    assert_eq!(engine.get_protocol_fee_bps(), 1000);
    let (settlement, _) = engine.pay_invoice(subscriber(), amount(51_000_000_000), id(1), 1).unwrap();
    assert_eq!(settlement.fee, amount(5_100_000_000));
    assert_eq!(settlement.merchant_amount, amount(45_900_000_000));
}

#[test]
fn only_the_owner_configures_the_engine() {
    let mut engine = BillingEngine::init(owner());
    let x = Address::contract(7, 7);
    assert_eq!(engine.set_subscription_manager(subscriber(), x), Err(Error::Unauthorized));
    assert_eq!(engine.set_usage_meter(subscriber(), x), Err(Error::Unauthorized));
    assert_eq!(engine.set_stake_to_pay(subscriber(), x), Err(Error::Unauthorized));
    assert_eq!(engine.set_fee_recipient(subscriber(), x), Err(Error::Unauthorized));
    assert_eq!(engine.set_protocol_fee_bps(subscriber(), 5), Err(Error::Unauthorized));
    assert_eq!(engine.get_fee_recipient(), owner());
    assert_eq!(engine.set_subscription_manager(owner(), x), Ok(()));
    assert_eq!(engine.set_usage_meter(owner(), x), Ok(()));
    assert_eq!(engine.set_stake_to_pay(owner(), x), Ok(()));
    assert_eq!(engine.set_fee_recipient(owner(), x), Ok(()));
    assert_eq!(engine.get_fee_recipient(), x);
}

#[test]
fn numbers_beyond_64_bits_name_no_invoice() {
    let wide = Amount::from_words(1, 0, 1, 0);
    let mut engine = engine_with_invoice();
    engine.set_stake_to_pay(owner(), stake_ledger()).unwrap();
    assert_eq!(engine.get_invoice(wide), None);
    assert_eq!(engine.get_payment_record(wide), None);
    assert_eq!(engine.pay_invoice(subscriber(), amount(1), wide, 1), Err(Error::NotFound));
    assert_eq!(
        engine.pay_invoice_from_staking(stake_ledger(), wide, subscriber(), 1),
        Err(Error::NotFound)
    );
    assert_eq!(engine.fail_invoice(owner(), wide, String::new()), Err(Error::NotFound));
    assert!(engine.settlement_fits(wide));
}

#[test]
fn a_subscription_number_may_take_all_of_256_bits() {
    let wide = Amount::from_words(1, 2, 3, 4);
    let mut engine = BillingEngine::init(owner());
    let created =
        engine.create_invoice(wide, wide, subscriber(), merchant(), amount(10), amount(0), amount(0), 0, 1, 0);
    assert_eq!(created.subscription_id, wide);
    assert_eq!(created.invoice_id, id(1));
    engine.create_invoice(id(1), id(1), subscriber(), merchant(), amount(10), amount(0), amount(0), 0, 1, 0);
    let invoice = engine.get_invoice(id(1)).unwrap();
    assert_eq!(invoice.subscription_id, wide);
    assert_eq!(invoice.plan_id, wide);
    assert_eq!(engine.get_subscription_invoices(wide), vec![id(1)]);
    assert_eq!(engine.get_subscription_invoices(id(1)), vec![id(2)]);
}

#[test]
fn a_payment_is_in_range_when_it_is_refused_or_fits() {
    let largest = Amount::from_words(u64::MAX, u64::MAX, u64::MAX, u64::MAX);
    let mut engine = BillingEngine::init(owner());
    engine.set_protocol_fee_bps(owner(), 0).unwrap();
    engine.set_stake_to_pay(owner(), stake_ledger()).unwrap();
    engine.create_invoice(id(1), id(1), subscriber(), merchant(), largest, amount(0), amount(0), 0, 1, 0);
    engine.create_invoice(id(1), id(1), subscriber(), merchant(), amount(1), amount(0), amount(0), 0, 1, 0);
    engine.pay_invoice(subscriber(), largest, id(1), 5).unwrap();
    assert!(!engine.settlement_fits(id(2)));
    assert!(!engine.payment_in_range(subscriber(), amount(1), id(2)));
    assert!(engine.payment_in_range(subscriber(), amount(0), id(2)));
    assert!(engine.payment_in_range(merchant(), amount(1), id(2)));
    assert!(engine.payment_in_range(subscriber(), amount(1), id(1)));
    assert!(engine.payment_in_range(subscriber(), amount(1), id(3)));
    assert!(!engine.settlement_in_range(stake_ledger(), id(2), subscriber()));
    assert!(engine.settlement_in_range(owner(), id(2), subscriber()));
    assert!(engine.settlement_in_range(stake_ledger(), id(2), merchant()));
    assert!(engine.settlement_in_range(stake_ledger(), id(1), subscriber()));
}
