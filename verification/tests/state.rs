use casperflow::amount::Amount;
use casperflow::billing_engine::{BillingEngine, BillingEngineState, Revenue};
use casperflow::identity::Address;
use casperflow::stake_to_pay::{StakeConfig, StakePayment, StakeToPay, StakeToPayState};
use casperflow::subscription_manager::{Enrollment, SubscriptionManager};
use casperflow::table::Table;
use casperflow::usage_meter::{BillingPeriodUsage, Grant, PeriodCursor, UsageMeter, UsageMeterState};

fn owner() -> Address {
    Address::account(0, 1)
}

fn user() -> Address {
    Address::account(0, 2)
}

fn merchant() -> Address {
    Address::account(0, 3)
}

fn amount(n: u64) -> Amount {
    Amount::from_u64(n)
}

fn id(n: u64) -> Amount {
    Amount::from_u64(n)
}

fn position(who: Address, principal: u64, rewards: u64, used: u64) -> StakeConfig {
    let mut config = StakeConfig::new(who, 0);
    config.staked_amount = amount(principal);
    config.accumulated_rewards = amount(rewards);
    config.total_rewards_used = amount(used);
    config
}

fn stake_state() -> StakeToPayState {
    StakeToPayState {
        owner: owner(),
        billing_engine: None,
        stake_configs: vec![position(user(), 1000, 50, 20), position(merchant(), 500, 0, 0)],
        payments: vec![StakePayment {
            id: id(1),
            user: user(),
            invoice_id: id(9),
            amount: amount(20),
            paid_at: 5,
        }],
        total_staked: amount(1500),
        total_rewards: amount(70),
        apy_bps: 800,
    }
}

#[test]
fn a_table_takes_rows_with_distinct_keys() {
    let rows = vec![position(user(), 1, 0, 0), position(merchant(), 2, 0, 0)];
    let table = Table::from_rows(rows.clone()).unwrap();
    assert_eq!(table.len(), 2);
    assert_eq!(table.find(&merchant()), Some(1));
    assert_eq!(table.find(&owner()), None);
    assert_eq!(table.get(&user()), Some(&rows[0]));
    assert_eq!(table.row(1), &rows[1]);
    assert_eq!(table.into_rows(), rows);
    let twice = vec![position(user(), 1, 0, 0), position(merchant(), 2, 0, 0), position(user(), 3, 0, 0)];
    assert!(Table::from_rows(twice).is_none());
    assert!(Table::<StakeConfig>::from_rows(vec![]).is_some());
}

#[test]
fn a_table_replaces_appends_and_takes() {
    let mut table: Table<StakeConfig> = Table::new();
    table.append(position(user(), 1, 0, 0));
    table.append(position(merchant(), 2, 0, 0));
    table.replace(0, position(user(), 7, 0, 0));
    assert_eq!(table.get(&user()).unwrap().staked_amount, amount(7));
    let taken = table.take(0);
    assert_eq!(taken.user, user());
    assert_eq!(table.len(), 1);
    assert_eq!(table.find(&user()), None);
    assert_eq!(table.find(&merchant()), Some(0));
}

#[test]
fn a_stake_ledger_survives_being_laid_out() {
    let mut ledger = StakeToPay::init(owner());
    ledger.deposit(user(), amount(1_000_000_000), 0).unwrap();
    ledger.pay_invoice_from_rewards(user(), id(4), amount(90_000_000), merchant(), 31_536_000).unwrap();
    let state = ledger.into_state();
    assert_eq!(state.owner, owner());
    assert_eq!(state.total_staked, amount(990_000_000));
    assert_eq!(state.total_rewards, amount(80_000_000));
    assert_eq!(state.apy_bps, 800);
    assert_eq!(state.stake_configs.len(), 1);
    assert_eq!(state.payments.len(), 1);
    let back = StakeToPay::from_state(state).unwrap();
    assert_eq!(back.get_total_staked(), amount(990_000_000));
    assert_eq!(back.get_stake_config(user()).unwrap().total_rewards_used, amount(80_000_000));
    assert_eq!(back.get_user_payments(user()), vec![id(1)]);
}

#[test]
fn a_stake_ledger_is_made_of_values_that_add_up() {
    let ledger = StakeToPay::from_state(stake_state()).unwrap();
    assert_eq!(ledger.get_total_staked(), amount(1500));
    assert_eq!(ledger.get_stake_config(merchant()).unwrap().staked_amount, amount(500));
    // More rewards ever added than the positions show is in order.
    let mut more = stake_state();
    more.total_rewards = amount(1_000_000);
    assert!(StakeToPay::from_state(more).is_some());
}

#[test]
fn a_stake_ledger_with_a_wrong_total_is_refused() {
    let mut state = stake_state();
    state.total_staked = amount(1499);
    assert!(StakeToPay::from_state(state).is_none());
    let mut state = stake_state();
    state.total_staked = amount(1501);
    assert!(StakeToPay::from_state(state).is_none());
}

#[test]
fn a_stake_ledger_with_more_rewards_than_were_added_is_refused() {
    let mut state = stake_state();
    state.total_rewards = amount(69);
    assert!(StakeToPay::from_state(state).is_none());
}

#[test]
fn a_stake_ledger_with_a_user_filed_twice_is_refused() {
    let mut state = stake_state();
    state.stake_configs.push(position(user(), 0, 0, 0));
    assert!(StakeToPay::from_state(state).is_none());
}

#[test]
fn a_stake_ledger_with_a_rate_above_the_ceiling_is_refused() {
    let mut state = stake_state();
    state.apy_bps = 2001;
    assert!(StakeToPay::from_state(state).is_none());
    let mut state = stake_state();
    state.apy_bps = 2000;
    assert!(StakeToPay::from_state(state).is_some());
}

#[test]
fn a_stake_ledger_with_misnumbered_payments_is_refused() {
    let mut state = stake_state();
    state.payments[0].id = id(2);
    assert!(StakeToPay::from_state(state).is_none());
}

#[test]
fn a_stake_ledger_with_two_payments_for_an_invoice_is_refused() {
    let mut state = stake_state();
    let mut second = state.payments[0];
    second.id = id(2);
    state.payments.push(second);
    assert!(StakeToPay::from_state(state).is_none());
    let mut state = stake_state();
    let mut second = state.payments[0];
    second.id = id(2);
    second.invoice_id = id(10);
    state.payments.push(second);
    assert!(StakeToPay::from_state(state).is_some());
}

#[test]
fn a_table_can_be_duplicated() {
    let rows = vec![position(user(), 1, 0, 0), position(merchant(), 2, 0, 0)];
    let table = Table::from_rows(rows.clone()).unwrap();
    let copy = table.duplicate();
    assert_eq!(copy.into_rows(), rows);
    assert_eq!(table.len(), 2);
}

#[test]
fn a_stake_ledger_whose_sums_leave_the_range_is_refused() {
    let largest = Amount::from_words(u64::MAX, u64::MAX, u64::MAX, u64::MAX);
    let mut state = stake_state();
    state.stake_configs[0].staked_amount = largest;
    state.total_staked = amount(499);
    assert!(StakeToPay::from_state(state).is_none());
    let mut state = stake_state();
    state.stake_configs[0].accumulated_rewards = largest;
    state.total_rewards = largest;
    assert!(StakeToPay::from_state(state).is_none());
}

#[test]
fn a_billing_engine_survives_being_laid_out() {
    let mut engine = BillingEngine::init(owner());
    engine.create_invoice(id(1), id(1), user(), merchant(), amount(100), amount(2), amount(50), 0, 10, 0);
    engine.pay_invoice(user(), amount(200), id(1), 3).unwrap();
    let state = engine.into_state();
    assert_eq!(state.invoices.len(), 1);
    assert_eq!(state.merchant_revenue, vec![Revenue { merchant: merchant(), total: amount(198) }]);
    assert_eq!(state.protocol_fee_bps, 100);
    let back = BillingEngine::from_state(state).unwrap();
    assert_eq!(back.get_merchant_revenue(merchant()), amount(198));
    assert_eq!(back.get_invoice(id(1)).unwrap().total_amount, amount(200));
}

fn engine_state() -> BillingEngineState {
    let mut engine = BillingEngine::init(owner());
    engine.create_invoice(id(1), id(1), user(), merchant(), amount(100), amount(2), amount(50), 0, 10, 0);
    engine.create_invoice(id(1), id(1), user(), merchant(), amount(100), amount(2), amount(50), 10, 20, 0);
    engine.pay_invoice(user(), amount(200), id(1), 3).unwrap();
    engine.into_state()
}

#[test]
fn a_billing_engine_with_a_broken_invoice_is_refused() {
    let mut state = engine_state();
    state.invoices[1].id = id(3);
    assert!(BillingEngine::from_state(state).is_none());
    let mut state = engine_state();
    state.invoices[0].total_amount = amount(201);
    assert!(BillingEngine::from_state(state).is_none());
    let mut state = engine_state();
    let largest = Amount::from_words(u64::MAX, u64::MAX, u64::MAX, u64::MAX);
    state.invoices[0].base_amount = largest;
    assert!(BillingEngine::from_state(state).is_none());
}

#[test]
fn a_billing_engine_with_misnumbered_records_is_refused() {
    let mut state = engine_state();
    assert_eq!(state.payments.len(), 1);
    state.payments[0].id = id(0);
    assert!(BillingEngine::from_state(state).is_none());
    let back = BillingEngine::from_state(engine_state()).unwrap();
    assert_eq!(back.total_payment_records(), 1);
    assert_eq!(back.get_payment_record(id(1)).unwrap().invoice_id, id(1));
}

#[test]
fn a_billing_engine_with_a_record_for_an_unpaid_invoice_is_refused() {
    let mut state = engine_state();
    state.payments[0].invoice_id = id(2);
    assert!(BillingEngine::from_state(state).is_none());
    let mut state = engine_state();
    state.payments[0].invoice_id = id(3);
    assert!(BillingEngine::from_state(state).is_none());
    let mut state = engine_state();
    state.payments[0].invoice_id = id(0);
    assert!(BillingEngine::from_state(state).is_none());
}

#[test]
fn a_billing_engine_with_two_records_for_an_invoice_is_refused() {
    let mut state = engine_state();
    let mut second = state.payments[0];
    second.id = id(2);
    state.payments.push(second);
    assert!(BillingEngine::from_state(state).is_none());
}

#[test]
fn a_billing_engine_with_a_fee_above_the_ceiling_is_refused() {
    let mut state = engine_state();
    state.protocol_fee_bps = 1001;
    assert!(BillingEngine::from_state(state).is_none());
}

#[test]
fn a_billing_engine_with_a_merchant_filed_twice_is_refused() {
    let mut state = engine_state();
    state.merchant_revenue.push(Revenue { merchant: merchant(), total: amount(1) });
    assert!(BillingEngine::from_state(state).is_none());
}

#[test]
fn a_usage_meter_survives_being_laid_out() {
    let mut meter = UsageMeter::init(owner());
    meter.authorize_recorder(id(1), user());
    meter.record_usage(user(), id(7), id(1), "calls".to_string(), amount(5), 100).unwrap();
    meter.close_period(id(7), 200);
    meter.record_usage(user(), id(7), id(1), "calls".to_string(), amount(3), 250).unwrap();
    let state = meter.into_state();
    assert_eq!(state.records.len(), 2);
    assert_eq!(state.cursors, vec![PeriodCursor { subscription_id: id(7), period_start: 200 }]);
    assert_eq!(state.recorders, vec![Grant { plan_id: id(1), recorder: user() }]);
    assert_eq!(state.periods.len(), 2);
    let back = UsageMeter::from_state(state).unwrap();
    assert_eq!(back.get_current_usage(id(7)), amount(3));
    assert!(back.is_authorized(id(1), user()));
    assert_eq!(back.total_records(), 2);
}

fn period(subscription_id: Amount, period_start: u64, is_billed: bool) -> BillingPeriodUsage {
    BillingPeriodUsage {
        subscription_id,
        period_start,
        period_end: 0,
        total_units: amount(1),
        is_billed,
    }
}

fn meter_state(periods: Vec<BillingPeriodUsage>, cursors: Vec<PeriodCursor>) -> UsageMeterState {
    UsageMeterState {
        owner: owner(),
        subscription_manager: None,
        records: vec![],
        periods,
        cursors,
        recorders: vec![],
    }
}

#[test]
fn a_usage_meter_has_one_open_period_for_a_subscription() {
    let cursor = PeriodCursor { subscription_id: id(7), period_start: 200 };
    let good = meter_state(vec![period(id(7), 100, true), period(id(7), 200, false)], vec![cursor]);
    assert!(UsageMeter::from_state(good).is_some());
    let two_open = meter_state(vec![period(id(7), 100, false), period(id(7), 200, false)], vec![cursor]);
    assert!(UsageMeter::from_state(two_open).is_none());
    let no_cursor = meter_state(vec![period(id(7), 100, true)], vec![]);
    assert!(UsageMeter::from_state(no_cursor).is_none());
    let twice = meter_state(vec![period(id(7), 100, true), period(id(7), 100, true)], vec![cursor]);
    assert!(UsageMeter::from_state(twice).is_none());
    let two_cursors = meter_state(vec![], vec![cursor, cursor]);
    assert!(UsageMeter::from_state(two_cursors).is_none());
}

#[test]
fn a_subscription_registry_survives_being_laid_out() {
    let mut registry = SubscriptionManager::init(owner());
    registry.create_plan(merchant(), "Starter".to_string(), amount(10), amount(0), 30, 0);
    registry.subscribe(user(), amount(10), id(1), true, 0, 5).unwrap();
    let state = registry.into_state();
    assert_eq!(
        state.user_plan_subscription,
        vec![Enrollment { subscriber: user(), plan_id: id(1), subscription_id: id(1) }]
    );
    let mut broken = SubscriptionManager::init(owner()).into_state();
    broken.plans = state.plans.clone();
    broken.plans[0].id = id(2);
    assert!(SubscriptionManager::from_state(broken).is_none());
    let back = SubscriptionManager::from_state(state).unwrap();
    assert!(back.is_subscribed(user(), id(1)));
    assert_eq!(back.get_plan(id(1)).unwrap().name, "Starter");
}
