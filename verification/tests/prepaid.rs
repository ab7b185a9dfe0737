use casperflow::error::Error;
use casperflow::identity::Address;
use casperflow::prepaid::stake_to_pay::{AutoPay, Payout, Stake, StakeToPay, StakeToPayState};
use casperflow::prepaid::subscription_manager::{SubscriptionManager, SubscriptionManagerState, Term};
use casperflow::wide_amount::WideAmount;

fn owner() -> Address {
    Address::account(0, 1)
}

fn user() -> Address {
    Address::account(0, 2)
}

fn merchant() -> Address {
    Address::account(0, 3)
}

fn wide(n: u64) -> WideAmount {
    WideAmount::from_u64(n)
}

#[test]
fn test_stake() {
    let contract = StakeToPay::init(owner());

    assert_eq!(contract.total_staked(), WideAmount::zero());
}

#[test]
fn subscription_manager_test_create_plan() {
    let mut contract = SubscriptionManager::init(owner());

    let plan_id =
        contract.create_plan(owner(), wide(100_000_000_000u64), 2592000, "Pro Plan".to_string());

    assert_eq!(plan_id, 1);
    assert_eq!(contract.plan_count(), 1);
}

#[test]
fn staking_adds_to_the_stake_and_the_total() {
    let mut ledger = StakeToPay::init(owner());
    assert_eq!(ledger.owner(), Some(owner()));
    assert_eq!(ledger.stake(user(), wide(1000)), Ok(()));
    assert_eq!(ledger.stake(user(), wide(500)), Ok(()));
    assert_eq!(ledger.stake(merchant(), wide(7)), Ok(()));
    assert_eq!(ledger.get_stake(user()), wide(1500));
    assert_eq!(ledger.get_stake(merchant()), wide(7));
    assert_eq!(ledger.get_stake(owner()), WideAmount::zero());
    assert_eq!(ledger.total_staked(), wide(1507));
}

#[test]
fn staking_nothing_is_refused() {
    let mut ledger = StakeToPay::init(owner());
    assert_eq!(ledger.stake(user(), WideAmount::zero()), Err(Error::InvalidParameter));
    assert_eq!(ledger.total_staked(), WideAmount::zero());
}

#[test]
fn withdrawing_from_a_plain_stake() {
    let mut ledger = StakeToPay::init(owner());
    ledger.stake(user(), wide(1000)).unwrap();
    ledger.stake(merchant(), wide(10)).unwrap();
    assert_eq!(ledger.withdraw(user(), wide(1001)), Err(Error::InsufficientFunds));
    assert_eq!(ledger.withdraw(owner(), wide(1)), Err(Error::InsufficientFunds));
    assert_eq!(ledger.withdraw(user(), wide(400)), Ok(Payout { to: user(), amount: wide(400) }));
    assert_eq!(ledger.get_stake(user()), wide(600));
    assert_eq!(ledger.total_staked(), wide(610));
    assert_eq!(ledger.withdraw(user(), wide(600)), Ok(Payout { to: user(), amount: wide(600) }));
    assert_eq!(ledger.get_stake(user()), WideAmount::zero());
    assert_eq!(ledger.total_staked(), wide(10));
    assert_eq!(
        ledger.withdraw(owner(), WideAmount::zero()),
        Ok(Payout { to: owner(), amount: WideAmount::zero() })
    );
}

#[test]
fn the_switch_for_a_plan_is_off_until_set() {
    let mut ledger = StakeToPay::init(owner());
    assert!(!ledger.is_auto_pay_enabled(user(), 1));
    ledger.enable_auto_pay(user(), 1);
    assert!(ledger.is_auto_pay_enabled(user(), 1));
    assert!(!ledger.is_auto_pay_enabled(user(), 2));
    assert!(!ledger.is_auto_pay_enabled(merchant(), 1));
    ledger.disable_auto_pay(user(), 1);
    assert!(!ledger.is_auto_pay_enabled(user(), 1));
    ledger.disable_auto_pay(user(), 5);
    assert!(!ledger.is_auto_pay_enabled(user(), 5));
}

#[test]
fn a_year_earns_a_twentieth() {
    let mut ledger = StakeToPay::init(owner());
    ledger.stake(user(), wide(1999)).unwrap();
    assert_eq!(ledger.estimate_yearly_rewards(user()), wide(99));
    assert_eq!(ledger.estimate_yearly_rewards(owner()), WideAmount::zero());
}

#[test]
fn only_the_owner_names_the_registry_of_the_stakes() {
    let mut ledger = StakeToPay::init(owner());
    assert_eq!(ledger.set_subscription_manager(user(), merchant()), Err(Error::Unauthorized));
    assert_eq!(ledger.set_subscription_manager(owner(), merchant()), Ok(()));
}

#[test]
fn plain_stakes_survive_being_laid_out() {
    let mut ledger = StakeToPay::init(owner());
    ledger.stake(user(), wide(1000)).unwrap();
    ledger.enable_auto_pay(user(), 3);
    let state = ledger.into_state();
    assert_eq!(state.stakes, vec![Stake { user: user(), amount: wide(1000) }]);
    assert_eq!(state.auto_pay, vec![AutoPay { user: user(), plan_id: 3, enabled: true }]);
    assert_eq!(state.total_staked, wide(1000));
    let back = StakeToPay::from_state(state).unwrap();
    assert_eq!(back.get_stake(user()), wide(1000));
    assert!(back.is_auto_pay_enabled(user(), 3));
}

#[test]
fn plain_stakes_that_do_not_add_up_are_refused() {
    let state = StakeToPayState {
        owner: owner(),
        stakes: vec![Stake { user: user(), amount: wide(1000) }],
        auto_pay: vec![],
        total_staked: wide(999),
        subscription_manager: None,
    };
    assert!(StakeToPay::from_state(state).is_none());
    let twice = StakeToPayState {
        owner: owner(),
        stakes: vec![
            Stake { user: user(), amount: wide(1) },
            Stake { user: user(), amount: wide(2) },
        ],
        auto_pay: vec![],
        total_staked: wide(3),
        subscription_manager: None,
    };
    assert!(StakeToPay::from_state(twice).is_none());
    let beyond = StakeToPayState {
        owner: owner(),
        stakes: vec![
            Stake { user: user(), amount: WideAmount::from_words([u64::MAX; 8]) },
            Stake { user: merchant(), amount: wide(1) },
        ],
        auto_pay: vec![],
        total_staked: WideAmount::zero(),
        subscription_manager: None,
    };
    assert!(StakeToPay::from_state(beyond).is_none());
}

#[test]
fn a_prepaid_plan_holds_what_it_was_made_of() {
    let mut registry = SubscriptionManager::init(owner());
    assert_eq!(registry.owner(), Some(owner()));
    assert_eq!(registry.plan_count(), 0);
    let id = registry.create_plan(merchant(), wide(100), 30, "Pro Plan".to_string());
    assert_eq!(id, 1);
    assert_eq!(registry.create_plan(owner(), wide(5), 7, "Lite".to_string()), 2);
    assert_eq!(registry.get_plan_price(1), wide(100));
    assert_eq!(registry.get_plan_period(1), 30);
    assert_eq!(registry.get_plan_name(1), "Pro Plan");
    assert_eq!(registry.get_plan_merchant(1), Some(merchant()));
    assert_eq!(registry.get_plan_subscribers(1), 0);
    assert_eq!(registry.get_plan_name(2), "Lite");
    assert_eq!(registry.get_plan_price(3), WideAmount::zero());
    assert_eq!(registry.get_plan_period(3), 0);
    assert_eq!(registry.get_plan_name(3), "");
    assert_eq!(registry.get_plan_merchant(3), None);
    assert_eq!(registry.get_plan_subscribers(0), 0);
    assert_eq!(registry.total_revenue(), WideAmount::zero());
}

#[test]
fn paying_the_price_starts_a_term() {
    let mut registry = SubscriptionManager::init(owner());
    registry.create_plan(merchant(), wide(100), 30, "Pro Plan".to_string());
    assert_eq!(
        registry.subscribe(user(), wide(100), 1, 1000),
        Ok(Payout { to: merchant(), amount: wide(100) })
    );
    assert_eq!(registry.get_expiry(user(), 1), 1030);
    assert!(registry.is_subscribed(user(), 1, 1000));
    assert!(registry.is_subscribed(user(), 1, 1029));
    assert!(!registry.is_subscribed(user(), 1, 1030));
    assert!(!registry.is_subscribed(merchant(), 1, 1000));
    assert_eq!(registry.get_plan_subscribers(1), 1);
    assert_eq!(registry.total_revenue(), wide(100));
}

#[test]
fn paying_again_extends_a_running_term() {
    let mut registry = SubscriptionManager::init(owner());
    registry.create_plan(merchant(), wide(100), 30, "Pro Plan".to_string());
    registry.subscribe(user(), wide(150), 1, 1000).unwrap();
    registry.subscribe(user(), wide(100), 1, 1010).unwrap();
    assert_eq!(registry.get_expiry(user(), 1), 1060);
    // A lapsed term starts anew.
    registry.subscribe(user(), wide(100), 1, 5000).unwrap();
    assert_eq!(registry.get_expiry(user(), 1), 5030);
    assert_eq!(registry.get_plan_subscribers(1), 1);
    assert_eq!(registry.total_revenue(), wide(300));
    registry.subscribe(owner(), wide(100), 1, 5000).unwrap();
    assert_eq!(registry.get_plan_subscribers(1), 2);
}

#[test]
fn a_prepaid_plan_must_be_there_and_be_paid() {
    let mut registry = SubscriptionManager::init(owner());
    registry.create_plan(merchant(), wide(100), 30, "Pro Plan".to_string());
    registry.create_plan(merchant(), WideAmount::zero(), 30, "Free".to_string());
    assert_eq!(registry.subscribe(user(), wide(100), 3, 0), Err(Error::NotFound));
    assert_eq!(registry.subscribe(user(), wide(100), 0, 0), Err(Error::NotFound));
    assert_eq!(registry.subscribe(user(), wide(100), 2, 0), Err(Error::NotFound));
    assert_eq!(registry.subscribe(user(), wide(99), 1, 0), Err(Error::InsufficientFunds));
    assert_eq!(registry.get_expiry(user(), 1), 0);
    assert_eq!(registry.total_revenue(), WideAmount::zero());
}

#[test]
fn a_prepaid_registry_survives_being_laid_out() {
    let mut registry = SubscriptionManager::init(owner());
    registry.create_plan(merchant(), wide(100), 30, "Pro Plan".to_string());
    registry.subscribe(user(), wide(100), 1, 1000).unwrap();
    let state = registry.into_state();
    assert_eq!(state.subscriptions, vec![Term { subscriber: user(), plan_id: 1, expiry: 1030 }]);
    assert_eq!(state.plans.len(), 1);
    assert_eq!(state.plans[0].subscribers, 1);
    let back = SubscriptionManager::from_state(state).unwrap();
    assert_eq!(back.get_expiry(user(), 1), 1030);
    assert_eq!(back.total_revenue(), wide(100));
    let twice = SubscriptionManagerState {
        owner: owner(),
        plans: vec![],
        subscriptions: vec![
            Term { subscriber: user(), plan_id: 1, expiry: 5 },
            Term { subscriber: user(), plan_id: 1, expiry: 6 },
        ],
        total_revenue: WideAmount::zero(),
    };
    assert!(SubscriptionManager::from_state(twice).is_none());
}

#[test]
fn a_prepaid_subscription_is_in_range_when_it_is_refused_or_fits() {
    let widest = WideAmount::from_words([u64::MAX; 8]);
    let mut registry = SubscriptionManager::init(owner());
    registry.create_plan(merchant(), widest, 30, "Dear".to_string());
    registry.create_plan(merchant(), wide(1), u64::MAX, "Long".to_string());
    assert!(registry.subscription_in_range(user(), widest, 1, 0));
    registry.subscribe(user(), widest, 1, 0).unwrap();
    assert_eq!(registry.total_revenue(), widest);
    assert!(!registry.subscription_in_range(user(), widest, 1, 10));
    assert!(registry.subscription_in_range(user(), wide(5), 1, 10));
    assert!(!registry.subscription_in_range(user(), wide(1), 2, 0));
    assert!(registry.subscription_in_range(user(), wide(0), 2, 0));
    assert!(registry.subscription_in_range(user(), wide(1), 3, 0));
}
