use casperflow::amount::Amount;
use casperflow::error::Error;
use casperflow::identity::Address;
use casperflow::subscription_manager::{
    PlanUpdated, SubscriptionManager, Unsubscribed, PAY_FROM_STAKE, PAY_FROM_WALLET,
};

fn owner() -> Address {
    Address::account(0, 1)
}

fn merchant() -> Address {
    Address::account(0, 2)
}

fn user() -> Address {
    Address::account(0, 3)
}

fn amount(n: u64) -> Amount {
    Amount::from_u64(n)
}

fn id(n: u64) -> Amount {
    Amount::from_u64(n)
}

fn registry_with_plan() -> SubscriptionManager {
    let mut registry = SubscriptionManager::init(owner());
    registry.create_plan(
        merchant(),
        "Starter".to_string(),
        amount(10_000_000_000),
        Amount::zero(),
        2592000,
        100,
    );
    registry
}

#[test]
fn test_create_plan() {
    let mut contract = SubscriptionManager::init(owner());

    let created = contract.create_plan(
        owner(),
        "Pro API".to_string(),
        amount(50_000_000_000u64),
        amount(1_000_000u64),
        2592000,
        0,
    );
    let plan_id = created.plan_id;

    assert_eq!(plan_id, id(1));

    let plan = contract.get_plan(plan_id).unwrap();
    assert_eq!(plan.name, "Pro API");
    assert!(plan.is_active);
}

#[test]
fn test_subscribe() {
    let mut contract = SubscriptionManager::init(owner());

    let plan_id = contract
        .create_plan(owner(), "Starter".to_string(), amount(10_000_000_000u64), Amount::zero(), 2592000, 0)
        .plan_id;

    let sub_id = contract
        .subscribe(owner(), amount(10_000_000_000u64), plan_id, true, 0, 0)
        .unwrap()
        .subscription_id;

    assert_eq!(sub_id, id(1));

    let subscription = contract.get_subscription(sub_id).unwrap();
    assert!(subscription.is_active);
    assert!(subscription.auto_renew);
}

#[test]
fn a_new_registry_is_empty() {
    let registry = SubscriptionManager::init(owner());
    assert_eq!(registry.total_plans(), 0);
    assert_eq!(registry.total_subscriptions(), 0);
    assert_eq!(registry.get_plan(id(1)), None);
    assert_eq!(registry.get_subscription(id(1)), None);
    assert_eq!(registry.get_merchant_plans(merchant()), Vec::<Amount>::new());
    assert_eq!(registry.get_user_subscriptions(user()), Vec::<Amount>::new());
    assert!(!registry.is_subscribed(user(), id(1)));
}

#[test]
fn a_plan_holds_what_it_was_made_of() {
    let mut registry = SubscriptionManager::init(owner());
    let created = registry.create_plan(
        merchant(),
        "Pro API".to_string(),
        amount(50_000_000_000),
        amount(1_000_000),
        2592000,
        77,
    );
    assert_eq!(created.plan_id, id(1));
    assert_eq!(created.merchant, merchant());
    assert_eq!(created.name, "Pro API");
    assert_eq!(created.base_price, amount(50_000_000_000));
    let plan = registry.get_plan(id(1)).unwrap();
    assert_eq!(plan.id, id(1));
    assert_eq!(plan.merchant, merchant());
    assert_eq!(plan.base_price, amount(50_000_000_000));
    assert_eq!(plan.usage_price, amount(1_000_000));
    assert_eq!(plan.billing_cycle, 2592000);
    assert_eq!(plan.created_at, 77);
    assert_eq!(registry.total_plans(), 1);
    assert_eq!(registry.get_plan(id(0)), None);
    assert_eq!(registry.get_plan(id(2)), None);
}

#[test]
fn plans_are_listed_by_merchant() {
    let mut registry = registry_with_plan();
    registry.create_plan(owner(), "B".to_string(), amount(1), amount(1), 1, 0);
    registry.create_plan(merchant(), "C".to_string(), amount(1), amount(1), 1, 0);
    assert_eq!(registry.get_merchant_plans(merchant()), vec![id(1), id(3)]);
    assert_eq!(registry.get_merchant_plans(owner()), vec![id(2)]);
    assert_eq!(registry.get_merchant_plans(user()), Vec::<Amount>::new());
}

#[test]
fn only_the_merchant_changes_a_plan() {
    let mut registry = registry_with_plan();
    assert_eq!(registry.update_plan(user(), id(1), amount(5), amount(6)), Err(Error::Unauthorized));
    assert_eq!(registry.update_plan(owner(), id(1), amount(5), amount(6)), Err(Error::Unauthorized));
    assert_eq!(registry.update_plan(merchant(), id(2), amount(5), amount(6)), Err(Error::NotFound));
    assert_eq!(registry.deactivate_plan(user(), id(1)), Err(Error::Unauthorized));
    assert_eq!(registry.deactivate_plan(merchant(), id(0)), Err(Error::NotFound));
    assert_eq!(
        registry.update_plan(merchant(), id(1), amount(5), amount(6)),
        Ok(PlanUpdated { plan_id: id(1), base_price: amount(5), usage_price: amount(6) })
    );
    let plan = registry.get_plan(id(1)).unwrap();
    assert_eq!(plan.base_price, amount(5));
    assert_eq!(plan.usage_price, amount(6));
    assert_eq!(plan.name, "Starter");
    assert!(plan.is_active);
    assert_eq!(registry.deactivate_plan(merchant(), id(1)).unwrap().plan_id, id(1));
    assert!(!registry.get_plan(id(1)).unwrap().is_active);
}

#[test]
fn a_subscription_holds_what_it_was_made_of() {
    let mut registry = registry_with_plan();
    let notice = registry
        .subscribe(user(), amount(10_000_000_000), id(1), false, PAY_FROM_WALLET, 1000)
        .unwrap();
    assert_eq!(notice.subscription_id, id(1));
    assert_eq!(notice.plan_id, id(1));
    assert_eq!(notice.subscriber, user());
    let subscription = registry.get_subscription(id(1)).unwrap();
    assert_eq!(subscription.plan_id, id(1));
    assert_eq!(subscription.subscriber, user());
    assert_eq!(subscription.started_at, 1000);
    assert_eq!(subscription.next_billing_at, 2593000);
    assert!(!subscription.auto_renew);
    assert_eq!(subscription.payment_method, PAY_FROM_WALLET);
    assert!(subscription.is_active);
    assert!(registry.is_subscribed(user(), id(1)));
    assert!(!registry.is_subscribed(merchant(), id(1)));
    assert_eq!(registry.total_subscriptions(), 1);
    assert_eq!(registry.get_user_subscriptions(user()), vec![id(1)]);
}

#[test]
fn subscribing_to_an_unknown_plan_is_refused() {
    let mut registry = registry_with_plan();
    assert_eq!(
        registry.subscribe(user(), amount(10_000_000_000), id(2), true, 0, 0),
        Err(Error::NotFound)
    );
    assert_eq!(registry.total_subscriptions(), 0);
}

#[test]
fn subscribing_to_a_closed_plan_is_refused() {
    let mut registry = registry_with_plan();
    registry.deactivate_plan(merchant(), id(1)).unwrap();
    assert_eq!(
        registry.subscribe(user(), amount(10_000_000_000), id(1), true, 0, 0),
        Err(Error::InvalidState)
    );
}

#[test]
fn subscribing_twice_is_refused_until_cancelled() {
    let mut registry = registry_with_plan();
    registry.subscribe(user(), amount(10_000_000_000), id(1), true, 0, 0).unwrap();
    assert_eq!(
        registry.subscribe(user(), amount(10_000_000_000), id(1), true, 0, 5),
        Err(Error::InvalidState)
    );
    assert_eq!(
        registry.unsubscribe(user(), id(1)),
        Ok(Unsubscribed { subscription_id: id(1), subscriber: user() })
    );
    assert!(!registry.is_subscribed(user(), id(1)));
    let again = registry.subscribe(user(), amount(10_000_000_000), id(1), true, 0, 9).unwrap();
    assert_eq!(again.subscription_id, id(2));
    assert!(registry.is_subscribed(user(), id(1)));
    assert_eq!(registry.get_user_subscriptions(user()), vec![id(1), id(2)]);
    assert!(!registry.get_subscription(id(1)).unwrap().is_active);
    assert!(registry.get_subscription(id(2)).unwrap().is_active);
}

#[test]
fn subscribing_with_too_little_attached_is_refused() {
    let mut registry = registry_with_plan();
    assert_eq!(
        registry.subscribe(user(), amount(9_999_999_999), id(1), true, PAY_FROM_WALLET, 0),
        Err(Error::InsufficientFunds)
    );
    // Paid out of a stake, nothing need be attached.
    let notice = registry.subscribe(user(), Amount::zero(), id(1), true, PAY_FROM_STAKE, 0).unwrap();
    assert_eq!(notice.subscription_id, id(1));
    assert_eq!(registry.get_subscription(id(1)).unwrap().payment_method, PAY_FROM_STAKE);
}

#[test]
fn only_the_subscriber_cancels() {
    let mut registry = registry_with_plan();
    registry.subscribe(user(), amount(10_000_000_000), id(1), true, 0, 0).unwrap();
    assert_eq!(registry.unsubscribe(merchant(), id(1)), Err(Error::Unauthorized));
    assert_eq!(registry.unsubscribe(user(), id(2)), Err(Error::NotFound));
    assert!(registry.unsubscribe(user(), id(1)).is_ok());
    let subscription = registry.get_subscription(id(1)).unwrap();
    assert!(!subscription.is_active);
    assert!(!subscription.auto_renew);
    assert_eq!(registry.unsubscribe(user(), id(1)), Err(Error::InvalidState));
    assert_eq!(registry.unsubscribe(merchant(), id(1)), Err(Error::Unauthorized));
}

#[test]
fn only_the_subscriber_switches_renewal() {
    let mut registry = registry_with_plan();
    registry.subscribe(user(), amount(10_000_000_000), id(1), true, 0, 0).unwrap();
    assert_eq!(registry.set_auto_renew(merchant(), id(1), false), Err(Error::Unauthorized));
    assert_eq!(registry.set_auto_renew(user(), id(0), false), Err(Error::NotFound));
    assert!(registry.get_subscription(id(1)).unwrap().auto_renew);
    assert_eq!(registry.set_auto_renew(user(), id(1), false), Ok(()));
    assert!(!registry.get_subscription(id(1)).unwrap().auto_renew);
    assert!(registry.get_subscription(id(1)).unwrap().is_active);
}

#[test]
fn only_the_owner_configures_the_registry() {
    let mut registry = SubscriptionManager::init(owner());
    let x = Address::contract(3, 3);
    assert_eq!(registry.set_billing_engine(user(), x), Err(Error::Unauthorized));
    assert_eq!(registry.set_stake_to_pay(user(), x), Err(Error::Unauthorized));
    assert_eq!(registry.set_billing_engine(owner(), x), Ok(()));
    assert_eq!(registry.set_stake_to_pay(owner(), x), Ok(()));
}

#[test]
fn numbers_beyond_64_bits_name_no_plan() {
    let wide = Amount::from_words(1, 1, 0, 0);
    let mut registry = registry_with_plan();
    assert_eq!(registry.get_plan(wide), None);
    assert_eq!(registry.get_subscription(wide), None);
    assert_eq!(registry.subscribe(user(), amount(10_000_000_000), wide, true, 0, 0), Err(Error::NotFound));
    assert_eq!(registry.update_plan(merchant(), wide, amount(1), amount(1)), Err(Error::NotFound));
    assert_eq!(registry.deactivate_plan(merchant(), wide), Err(Error::NotFound));
    assert_eq!(registry.unsubscribe(user(), wide), Err(Error::NotFound));
    assert_eq!(registry.set_auto_renew(user(), wide, true), Err(Error::NotFound));
    assert!(!registry.is_subscribed(user(), wide));
}

#[test]
fn a_subscription_is_in_range_when_it_is_refused_or_fits() {
    let mut registry = SubscriptionManager::init(owner());
    registry.create_plan(merchant(), "Long".to_string(), amount(10), amount(0), u64::MAX, 0);
    assert!(registry.subscription_in_range(user(), amount(10), id(1), PAY_FROM_WALLET, 0));
    assert!(!registry.subscription_in_range(user(), amount(10), id(1), PAY_FROM_WALLET, 1));
    assert!(registry.subscription_in_range(user(), amount(9), id(1), PAY_FROM_WALLET, 1));
    assert!(!registry.subscription_in_range(user(), amount(9), id(1), PAY_FROM_STAKE, 1));
    assert!(registry.subscription_in_range(user(), amount(10), id(2), PAY_FROM_WALLET, 1));
    registry.subscribe(user(), amount(10), id(1), true, PAY_FROM_WALLET, 0).unwrap();
    assert!(registry.subscription_in_range(user(), amount(10), id(1), PAY_FROM_WALLET, 1));
    assert_eq!(registry.get_subscription(id(1)).unwrap().next_billing_at, u64::MAX);
}
