//! The subscription registry: the plans that merchants offer and the
//! subscriptions that users hold to them.

use crate::amount::Amount;
use crate::error::Error;
use crate::identity::Address;
use crate::table::{distinct_keys, mapping, Record, Table};
use crate::tally::views;
use vstd::prelude::*;

verus! {

/// The payment method of a subscription paid from the subscriber's own
/// funds.
pub const PAY_FROM_WALLET: u8 = 0;

/// The payment method of a subscription paid out of a stake position.
pub const PAY_FROM_STAKE: u8 = 1;

/// A plan that a merchant offers.
#[derive(Debug, PartialEq, Eq)]
pub struct Plan {
    /// The number of the plan, counted from one.
    pub id: Amount,
    /// The merchant who offers the plan.
    pub merchant: Address,
    /// The name of the plan.
    pub name: String,
    /// The price of a billing cycle.
    pub base_price: Amount,
    /// The price of a unit of usage; zero for a plan at a fixed price.
    pub usage_price: Amount,
    /// The length of a billing cycle, in seconds.
    pub billing_cycle: u64,
    /// Whether the plan takes new subscriptions.
    pub is_active: bool,
    /// When the plan was created.
    pub created_at: u64,
}

/// A plan with its prices as natural numbers.
pub struct PlanView {
    pub id: Amount,
    pub merchant: Address,
    pub name: Seq<char>,
    pub base_price: nat,
    pub usage_price: nat,
    pub billing_cycle: u64,
    pub is_active: bool,
    pub created_at: u64,
}

impl View for Plan {
    type V = PlanView;

    open spec fn view(&self) -> PlanView {
        PlanView {
            id: self.id,
            merchant: self.merchant,
            name: self.name@,
            base_price: self.base_price@,
            usage_price: self.usage_price@,
            billing_cycle: self.billing_cycle,
            is_active: self.is_active,
            created_at: self.created_at,
        }
    }
}

impl Clone for Plan {
    fn clone(&self) -> (r: Plan)
        ensures
            r == *self,
    {
        Plan {
            id: self.id,
            merchant: self.merchant,
            name: self.name.clone(),
            base_price: self.base_price,
            usage_price: self.usage_price,
            billing_cycle: self.billing_cycle,
            is_active: self.is_active,
            created_at: self.created_at,
        }
    }
}

/// The subscription of a user to a plan.
#[derive(Clone, Copy, Debug, PartialEq, Eq, Structural)]
pub struct Subscription {
    /// The plan subscribed to.
    pub plan_id: Amount,
    /// The subscriber.
    pub subscriber: Address,
    /// When the subscription started.
    pub started_at: u64,
    /// When the next billing is due.
    pub next_billing_at: u64,
    /// Whether the subscription renews by itself.
    pub auto_renew: bool,
    /// How the subscription is paid.
    pub payment_method: u8,
    /// Whether the subscription is in force.
    pub is_active: bool,
}

/// Notice that a plan was created.
#[derive(Debug, PartialEq, Eq)]
pub struct PlanCreated {
    pub plan_id: Amount,
    pub merchant: Address,
    pub name: String,
    pub base_price: Amount,
}

/// Notice that the prices of a plan were changed.
#[derive(Clone, Copy, Debug, PartialEq, Eq, Structural)]
pub struct PlanUpdated {
    pub plan_id: Amount,
    pub base_price: Amount,
    pub usage_price: Amount,
}

/// Notice that a plan takes no new subscriptions.
#[derive(Clone, Copy, Debug, PartialEq, Eq, Structural)]
pub struct PlanDeactivated {
    pub plan_id: Amount,
}

/// Notice that a user has subscribed.
#[derive(Clone, Copy, Debug, PartialEq, Eq, Structural)]
pub struct Subscribed {
    pub subscription_id: Amount,
    pub plan_id: Amount,
    pub subscriber: Address,
}

/// Notice that a user has cancelled a subscription.
#[derive(Clone, Copy, Debug, PartialEq, Eq, Structural)]
pub struct Unsubscribed {
    pub subscription_id: Amount,
    pub subscriber: Address,
}

/// Notice that a subscription was renewed.
#[derive(Clone, Copy, Debug, PartialEq, Eq, Structural)]
pub struct SubscriptionRenewed {
    pub subscription_id: Amount,
    pub next_billing_at: u64,
}

/// The latest subscription of a user to a plan.
#[derive(Clone, Copy, Debug, PartialEq, Eq, Structural)]
pub struct Enrollment {
    pub subscriber: Address,
    pub plan_id: Amount,
    pub subscription_id: Amount,
}

impl View for Enrollment {
    type V = Amount;

    open spec fn view(&self) -> Amount {
        self.subscription_id
    }
}

impl Record for Enrollment {
    type Key = (Address, Amount);

    open spec fn key(&self) -> (Address, Amount) {
        (self.subscriber, self.plan_id)
    }

    fn has_key(&self, key: &(Address, Amount)) -> (r: bool) {
        self.subscriber == key.0 && self.plan_id == key.1
    }

    fn same_key(&self, other: &Enrollment) -> (r: bool) {
        self.subscriber == other.subscriber && self.plan_id == other.plan_id
    }
}

/// The numbers of the plans among the first `n` of `plans` that `merchant`
/// offers, in their order; plans are numbered from one.
pub open spec fn plan_ids(plans: Seq<PlanView>, merchant: Address, n: nat) -> Seq<Amount>
    decreases n,
{
    if n == 0 {
        Seq::empty()
    } else if plans[n - 1].merchant == merchant {
        plan_ids(plans, merchant, (n - 1) as nat).push(Amount::of(n))
    } else {
        plan_ids(plans, merchant, (n - 1) as nat)
    }
}

/// The numbers of the subscriptions among the first `n` of `subscriptions`
/// that `user` holds, in their order; subscriptions are numbered from one.
pub open spec fn subscription_ids(subscriptions: Seq<Subscription>, user: Address, n: nat) -> Seq<
    Amount,
>
    decreases n,
{
    if n == 0 {
        Seq::empty()
    } else if subscriptions[n - 1].subscriber == user {
        subscription_ids(subscriptions, user, (n - 1) as nat).push(Amount::of(n))
    } else {
        subscription_ids(subscriptions, user, (n - 1) as nat)
    }
}

/// The subscription registry as a mathematical value.
pub struct SubscriptionManagerView {
    /// The owner, who alone can configure the registry.
    pub owner: Address,
    /// The plans, oldest first.
    pub plans: Seq<PlanView>,
    /// The subscriptions, oldest first.
    pub subscriptions: Seq<Subscription>,
    /// The number of the latest subscription of each user to each plan.
    pub enrollments: Map<(Address, Amount), Amount>,
    /// The billing engine the registry works with, once it is set.
    pub billing_engine: Option<Address>,
    /// The stake ledger the registry works with, once it is set.
    pub stake_to_pay: Option<Address>,
}

impl SubscriptionManagerView {
    /// Whether a plan has the number `plan_id`.
    pub open spec fn has_plan(self, plan_id: Amount) -> bool {
        1 <= plan_id@ <= self.plans.len()
    }

    /// The plan with the number `plan_id`.
    pub open spec fn plan(self, plan_id: Amount) -> PlanView {
        self.plans[plan_id@ - 1]
    }

    /// Whether a subscription has the number `subscription_id`.
    pub open spec fn has_subscription(self, subscription_id: Amount) -> bool {
        1 <= subscription_id@ <= self.subscriptions.len()
    }

    /// The subscription with the number `subscription_id`.
    pub open spec fn subscription(self, subscription_id: Amount) -> Subscription {
        self.subscriptions[subscription_id@ - 1]
    }

    /// Whether `user` holds a subscription to `plan_id` that is in force.
    pub open spec fn is_subscribed(self, user: Address, plan_id: Amount) -> bool {
        &&& self.enrollments.contains_key((user, plan_id))
        &&& self.has_subscription(self.enrollments[(user, plan_id)])
        &&& self.subscription(self.enrollments[(user, plan_id)]).is_active
    }

    /// The plan that `create_plan` files: active, numbered after the plans
    /// so far.
    pub open spec fn next_plan(
        self,
        merchant: Address,
        name: Seq<char>,
        base_price: nat,
        usage_price: nat,
        billing_cycle: u64,
        now: u64,
    ) -> PlanView {
        PlanView {
            id: Amount::of(self.plans.len() + 1),
            merchant,
            name,
            base_price,
            usage_price,
            billing_cycle,
            is_active: true,
            created_at: now,
        }
    }

    /// Changing the prices of a plan, which only its merchant may do.
    pub open spec fn update_plan(
        self,
        caller: Address,
        plan_id: Amount,
        base_price: nat,
        usage_price: nat,
    ) -> Result<SubscriptionManagerView, Error> {
        if !self.has_plan(plan_id) {
            Err(Error::NotFound)
        } else if self.plan(plan_id).merchant != caller {
            Err(Error::Unauthorized)
        } else {
            Ok(
                SubscriptionManagerView {
                    plans: self.plans.update(
                        plan_id@ - 1,
                        PlanView { base_price, usage_price, ..self.plan(plan_id) },
                    ),
                    ..self
                },
            )
        }
    }

    /// Closing a plan to new subscriptions, which only its merchant may do.
    pub open spec fn deactivate_plan(self, caller: Address, plan_id: Amount) -> Result<
        SubscriptionManagerView,
        Error,
    > {
        if !self.has_plan(plan_id) {
            Err(Error::NotFound)
        } else if self.plan(plan_id).merchant != caller {
            Err(Error::Unauthorized)
        } else {
            Ok(
                SubscriptionManagerView {
                    plans: self.plans.update(
                        plan_id@ - 1,
                        PlanView { is_active: false, ..self.plan(plan_id) },
                    ),
                    ..self
                },
            )
        }
    }

    /// The subscription that `subscribe` files.
    pub open spec fn next_subscription(
        self,
        caller: Address,
        plan_id: Amount,
        auto_renew: bool,
        payment_method: u8,
        now: u64,
    ) -> Subscription {
        Subscription {
            plan_id,
            subscriber: caller,
            started_at: now,
            next_billing_at: (now + self.plan(plan_id).billing_cycle) as u64,
            auto_renew,
            payment_method,
            is_active: true,
        }
    }

    /// Subscribing `caller`, who has attached `attached`, to `plan_id` at
    /// `now`. Refused, in this order: an unknown plan; a plan that takes no
    /// new subscriptions, or one the caller is subscribed to already; for
    /// payment from the caller's own funds, an attached value below the
    /// base price.
    pub open spec fn subscribe(
        self,
        caller: Address,
        attached: nat,
        plan_id: Amount,
        auto_renew: bool,
        payment_method: u8,
        now: u64,
    ) -> Result<SubscriptionManagerView, Error> {
        if !self.has_plan(plan_id) {
            Err(Error::NotFound)
        } else if !self.plan(plan_id).is_active || self.is_subscribed(caller, plan_id) {
            Err(Error::InvalidState)
        } else if payment_method == PAY_FROM_WALLET && attached < self.plan(plan_id).base_price {
            Err(Error::InsufficientFunds)
        } else {
            Ok(
                SubscriptionManagerView {
                    subscriptions: self.subscriptions.push(
                        self.next_subscription(caller, plan_id, auto_renew, payment_method, now),
                    ),
                    enrollments: self.enrollments.insert(
                        (caller, plan_id),
                        Amount::of(self.subscriptions.len() + 1),
                    ),
                    ..self
                },
            )
        }
    }

    /// Cancelling a subscription, which only its subscriber may do, and
    /// only while it is in force.
    pub open spec fn unsubscribe(self, caller: Address, subscription_id: Amount) -> Result<
        SubscriptionManagerView,
        Error,
    > {
        if !self.has_subscription(subscription_id) {
            Err(Error::NotFound)
        } else if self.subscription(subscription_id).subscriber != caller {
            Err(Error::Unauthorized)
        } else if !self.subscription(subscription_id).is_active {
            Err(Error::InvalidState)
        } else {
            Ok(
                SubscriptionManagerView {
                    subscriptions: self.subscriptions.update(
                        subscription_id@ - 1,
                        Subscription {
                            is_active: false,
                            auto_renew: false,
                            ..self.subscription(subscription_id)
                        },
                    ),
                    ..self
                },
            )
        }
    }

    /// Switching the renewal of a subscription, which only its subscriber
    /// may do.
    pub open spec fn set_auto_renew(
        self,
        caller: Address,
        subscription_id: Amount,
        auto_renew: bool,
    ) -> Result<SubscriptionManagerView, Error> {
        if !self.has_subscription(subscription_id) {
            Err(Error::NotFound)
        } else if self.subscription(subscription_id).subscriber != caller {
            Err(Error::Unauthorized)
        } else {
            Ok(
                SubscriptionManagerView {
                    subscriptions: self.subscriptions.update(
                        subscription_id@ - 1,
                        Subscription { auto_renew, ..self.subscription(subscription_id) },
                    ),
                    ..self
                },
            )
        }
    }
}

/// The subscription registry laid out in plain values, as it is kept
/// between calls.
pub struct SubscriptionManagerState {
    pub owner: Address,
    pub plans: Vec<Plan>,
    pub subscriptions: Vec<Subscription>,
    pub user_plan_subscription: Vec<Enrollment>,
    pub billing_engine: Option<Address>,
    pub stake_to_pay: Option<Address>,
}

impl SubscriptionManagerState {
    /// The registry that the values make up.
    pub open spec fn registry(&self) -> SubscriptionManagerView {
        SubscriptionManagerView {
            owner: self.owner,
            plans: views(self.plans@),
            subscriptions: self.subscriptions@,
            enrollments: mapping(self.user_plan_subscription@),
            billing_engine: self.billing_engine,
            stake_to_pay: self.stake_to_pay,
        }
    }

    /// Whether the values make up a registry: no user is enrolled twice in
    /// a plan, and the plans are numbered from one.
    pub open spec fn valid(&self) -> bool {
        &&& distinct_keys(self.user_plan_subscription@)
        &&& forall|i: int| 0 <= i < self.plans@.len() ==> (#[trigger] self.plans@[i]).id@ == i + 1
    }
}

/// The subscription registry.
pub struct SubscriptionManager {
    owner: Address,
    plans: Vec<Plan>,
    subscriptions: Vec<Subscription>,
    user_plan_subscription: Table<Enrollment>,
    billing_engine: Option<Address>,
    stake_to_pay: Option<Address>,
}

impl View for SubscriptionManager {
    type V = SubscriptionManagerView;

    closed spec fn view(&self) -> SubscriptionManagerView {
        SubscriptionManagerView {
            owner: self.owner,
            plans: views(self.plans@),
            subscriptions: self.subscriptions@,
            enrollments: self.user_plan_subscription@,
            billing_engine: self.billing_engine,
            stake_to_pay: self.stake_to_pay,
        }
    }
}

impl SubscriptionManager {
    /// The invariant of the registry: no user is enrolled twice in a plan,
    /// and the plans are numbered from one.
    pub closed spec fn wf(&self) -> bool {
        &&& self.user_plan_subscription.wf()
        &&& forall|i: int| 0 <= i < self.plans@.len() ==> (#[trigger] self.plans@[i]).id@ == i + 1
    }

    /// In a well-formed registry the plans are numbered from one.
    pub proof fn lemma_valid(&self)
        requires
            self.wf(),
        ensures
            forall|i: int| 0 <= i < self@.plans.len() ==> (#[trigger] self@.plans[i]).id@ == i + 1,
            self@.plans.len() <= u64::MAX,
            self@.subscriptions.len() <= u64::MAX,
    {
        assert(self.plans.len() <= usize::MAX);
        assert(self.subscriptions.len() <= usize::MAX);
    }

    /// The registry that `state` makes up, or `None` when it makes up none.
    pub fn from_state(state: SubscriptionManagerState) -> (r: Option<SubscriptionManager>)
        ensures
            match r {
                Some(registry) => state.valid() && registry.wf() && registry@ == state.registry(),
                None => !state.valid(),
            },
    {
        let mut i: usize = 0;
        while i < state.plans.len()
            invariant
                i <= state.plans.len(),
                forall|j: int| 0 <= j < i ==> (#[trigger] state.plans@[j]).id@ == j + 1,
            decreases state.plans.len() - i,
        {
            proof {
                state.plans@[i as int].id.lemma_of((i + 1) as u64);
            }
            if state.plans[i].id != Amount::from_u64((i as u64) + 1) {
                return None;
            }
            i += 1;
        }
        let user_plan_subscription = match Table::from_rows(state.user_plan_subscription) {
            Some(table) => table,
            None => {
                return None;
            },
        };
        Some(
            SubscriptionManager {
                owner: state.owner,
                plans: state.plans,
                subscriptions: state.subscriptions,
                user_plan_subscription,
                billing_engine: state.billing_engine,
                stake_to_pay: state.stake_to_pay,
            },
        )
    }

    /// The registry laid out in plain values.
    pub fn into_state(self) -> (state: SubscriptionManagerState)
        requires
            self.wf(),
        ensures
            state.valid(),
            state.registry() == self@,
    {
        SubscriptionManagerState {
            owner: self.owner,
            plans: self.plans,
            subscriptions: self.subscriptions,
            user_plan_subscription: self.user_plan_subscription.into_rows(),
            billing_engine: self.billing_engine,
            stake_to_pay: self.stake_to_pay,
        }
    }

    /// A new registry, owned by `caller`: no plans, no subscriptions.
    pub fn init(caller: Address) -> (registry: SubscriptionManager)
        ensures
            registry.wf(),
            registry@ == (SubscriptionManagerView {
                owner: caller,
                plans: Seq::empty(),
                subscriptions: Seq::empty(),
                enrollments: Map::empty(),
                billing_engine: None,
                stake_to_pay: None,
            }),
    {
        let registry = SubscriptionManager {
            owner: caller,
            plans: Vec::new(),
            subscriptions: Vec::new(),
            user_plan_subscription: Table::new(),
            billing_engine: None,
            stake_to_pay: None,
        };
        assert(views(registry.plans@) =~= Seq::<PlanView>::empty());
        registry
    }

    /// The place of the plan `plan_id`, if there is such a plan.
    fn place_of_plan(&self, plan_id: Amount) -> (r: Option<usize>)
        ensures
            match r {
                Some(i) => self@.has_plan(plan_id) && i == plan_id@ - 1 && i < self.plans@.len(),
                None => !self@.has_plan(plan_id),
            },
    {
        assert(views(self.plans@).len() == self.plans@.len());
        assert(self.plans.len() <= usize::MAX);
        match plan_id.to_u64() {
            Some(number) => if number == 0 || number > self.plans.len() as u64 {
                None
            } else {
                Some((number - 1) as usize)
            },
            None => None,
        }
    }

    /// The place of the subscription `subscription_id`, if there is such a
    /// subscription.
    fn place_of_subscription(&self, subscription_id: Amount) -> (r: Option<usize>)
        ensures
            match r {
                Some(i) => self@.has_subscription(subscription_id) && i == subscription_id@ - 1
                    && i < self.subscriptions@.len(),
                None => !self@.has_subscription(subscription_id),
            },
    {
        assert(self.subscriptions.len() <= usize::MAX);
        match subscription_id.to_u64() {
            Some(number) => if number == 0 || number > self.subscriptions.len() as u64 {
                None
            } else {
                Some((number - 1) as usize)
            },
            None => None,
        }
    }

    /// Files a plan offered by `caller`. Returns the notice, which holds the
    /// number of the plan.
    pub fn create_plan(
        &mut self,
        caller: Address,
        name: String,
        base_price: Amount,
        usage_price: Amount,
        billing_cycle: u64,
        now: u64,
    ) -> (created: PlanCreated)
        requires
            old(self).wf(),
            old(self)@.plans.len() < u64::MAX,
        ensures
            final(self).wf(),
            final(self)@ == (SubscriptionManagerView {
                plans: old(self)@.plans.push(
                    old(self)@.next_plan(
                        caller,
                        name@,
                        base_price@,
                        usage_price@,
                        billing_cycle,
                        now,
                    ),
                ),
                ..old(self)@
            }),
            created.plan_id@ == old(self)@.plans.len() + 1,
            created.merchant == caller,
            created.name@ == name@,
            created.base_price == base_price,
    {
        assert(views(self.plans@).len() == self.plans@.len());
        let plan_id = Amount::from_u64((self.plans.len() as u64) + 1);
        let plan = Plan {
            id: plan_id,
            merchant: caller,
            name: name.clone(),
            base_price,
            usage_price,
            billing_cycle,
            is_active: true,
            created_at: now,
        };
        let ghost filed = self.plans@;
        let ghost entry = plan@;
        self.plans.push(plan);
        proof {
            assert(views(self.plans@) =~= views(filed).push(entry));
        }
        PlanCreated { plan_id, merchant: caller, name, base_price }
    }

    /// Changes the prices of the plan `plan_id`. Fails with `NotFound` for
    /// an unknown plan and with `Unauthorized` for a caller who is not its
    /// merchant.
    pub fn update_plan(
        &mut self,
        caller: Address,
        plan_id: Amount,
        base_price: Amount,
        usage_price: Amount,
    ) -> (r: Result<PlanUpdated, Error>)
        requires
            old(self).wf(),
        ensures
            final(self).wf(),
            match r {
                Ok(notice) => {
                    &&& old(self)@.update_plan(caller, plan_id, base_price@, usage_price@) == Ok::<
                        SubscriptionManagerView,
                        Error,
                    >(final(self)@)
                    &&& notice == (PlanUpdated { plan_id, base_price, usage_price })
                },
                Err(e) => {
                    &&& old(self)@.update_plan(caller, plan_id, base_price@, usage_price@)
                        == Err::<SubscriptionManagerView, Error>(e)
                    &&& final(self)@ == old(self)@
                },
            },
    {
        let place = match self.place_of_plan(plan_id) {
            Some(i) => i,
            None => {
                return Err(Error::NotFound);
            },
        };
        if self.plans[place].merchant != caller {
            return Err(Error::Unauthorized);
        }
        let mut plan = self.plans[place].clone();
        plan.base_price = base_price;
        plan.usage_price = usage_price;
        let ghost filed = self.plans@;
        let ghost entry = plan@;
        self.plans.set(place, plan);
        proof {
            assert(views(self.plans@) =~= views(filed).update(place as int, entry));
        }
        Ok(PlanUpdated { plan_id, base_price, usage_price })
    }

    /// Closes the plan `plan_id` to new subscriptions. Fails with
    /// `NotFound` for an unknown plan and with `Unauthorized` for a caller
    /// who is not its merchant.
    pub fn deactivate_plan(&mut self, caller: Address, plan_id: Amount) -> (r: Result<
        PlanDeactivated,
        Error,
    >)
        requires
            old(self).wf(),
        ensures
            final(self).wf(),
            match r {
                Ok(notice) => {
                    &&& old(self)@.deactivate_plan(caller, plan_id) == Ok::<
                        SubscriptionManagerView,
                        Error,
                    >(final(self)@)
                    &&& notice.plan_id == plan_id
                },
                Err(e) => {
                    &&& old(self)@.deactivate_plan(caller, plan_id) == Err::<
                        SubscriptionManagerView,
                        Error,
                    >(e)
                    &&& final(self)@ == old(self)@
                },
            },
    {
        let place = match self.place_of_plan(plan_id) {
            Some(i) => i,
            None => {
                return Err(Error::NotFound);
            },
        };
        if self.plans[place].merchant != caller {
            return Err(Error::Unauthorized);
        }
        let mut plan = self.plans[place].clone();
        plan.is_active = false;
        let ghost filed = self.plans@;
        let ghost entry = plan@;
        self.plans.set(place, plan);
        proof {
            assert(views(self.plans@) =~= views(filed).update(place as int, entry));
        }
        Ok(PlanDeactivated { plan_id })
    }

    /// Whether `user` holds a subscription to `plan_id` that is in force.
    pub fn is_subscribed(&self, user: Address, plan_id: Amount) -> (r: bool)
        requires
            self.wf(),
        ensures
            r == self@.is_subscribed(user, plan_id),
    {
        match self.user_plan_subscription.get(&(user, plan_id)) {
            Some(enrollment) => match self.place_of_subscription(enrollment.subscription_id) {
                Some(i) => self.subscriptions[i].is_active,
                None => false,
            },
            None => false,
        }
    }

    /// Whether a subscription stays in range: true unless it would be
    /// accepted and either the time of the first billing would leave 64
    /// bits or the subscriptions could no longer be numbered.
    pub fn subscription_in_range(
        &self,
        caller: Address,
        attached: Amount,
        plan_id: Amount,
        payment_method: u8,
        now: u64,
    ) -> (r: bool)
        requires
            self.wf(),
        ensures
            forall|auto_renew: bool|
                r == (#[trigger] self@.subscribe(
                    caller,
                    attached@,
                    plan_id,
                    auto_renew,
                    payment_method,
                    now,
                ) is Ok ==> now + self@.plan(plan_id).billing_cycle <= u64::MAX
                    && self@.subscriptions.len() < u64::MAX),
    {
        let place = match self.place_of_plan(plan_id) {
            Some(i) => i,
            None => {
                return true;
            },
        };
        assert(views(self.plans@)[place as int] == self.plans@[place as int]@);
        if !self.plans[place].is_active || self.is_subscribed(caller, plan_id) {
            return true;
        }
        if payment_method == PAY_FROM_WALLET && attached.lt(&self.plans[place].base_price) {
            return true;
        }
        now.checked_add(self.plans[place].billing_cycle).is_some() && self.total_subscriptions()
            < u64::MAX
    }

    /// Subscribes `caller` to the plan `plan_id` at `now`; `attached` is
    /// what the caller has sent along. The first billing is due one billing
    /// cycle from `now`. Fails, in this order, with `NotFound` for an unknown
    /// plan, `InvalidState` for a plan that takes no new subscriptions or
    /// that the caller is subscribed to already, and, where the
    /// subscription is paid from the caller's own funds,
    /// `InsufficientFunds` for an attached value below the base price.
    pub fn subscribe(
        &mut self,
        caller: Address,
        attached: Amount,
        plan_id: Amount,
        auto_renew: bool,
        payment_method: u8,
        now: u64,
    ) -> (r: Result<Subscribed, Error>)
        requires
            old(self).wf(),
            old(self)@.subscribe(caller, attached@, plan_id, auto_renew, payment_method, now)
                is Ok ==> now + old(self)@.plan(plan_id).billing_cycle <= u64::MAX
                && old(self)@.subscriptions.len() < u64::MAX,
        ensures
            final(self).wf(),
            match r {
                Ok(notice) => {
                    &&& old(self)@.subscribe(
                        caller,
                        attached@,
                        plan_id,
                        auto_renew,
                        payment_method,
                        now,
                    ) == Ok::<SubscriptionManagerView, Error>(final(self)@)
                    &&& notice.subscription_id@ == old(self)@.subscriptions.len() + 1
                    &&& notice.plan_id == plan_id
                    &&& notice.subscriber == caller
                },
                Err(e) => {
                    &&& old(self)@.subscribe(
                        caller,
                        attached@,
                        plan_id,
                        auto_renew,
                        payment_method,
                        now,
                    ) == Err::<SubscriptionManagerView, Error>(e)
                    &&& final(self)@ == old(self)@
                },
            },
    {
        let place = match self.place_of_plan(plan_id) {
            Some(i) => i,
            None => {
                return Err(Error::NotFound);
            },
        };
        if !self.plans[place].is_active || self.is_subscribed(caller, plan_id) {
            return Err(Error::InvalidState);
        }
        if payment_method == PAY_FROM_WALLET && attached.lt(&self.plans[place].base_price) {
            return Err(Error::InsufficientFunds);
        }
        let subscription_id = Amount::from_u64((self.subscriptions.len() as u64) + 1);
        let subscription = Subscription {
            plan_id,
            subscriber: caller,
            started_at: now,
            next_billing_at: now + self.plans[place].billing_cycle,
            auto_renew,
            payment_method,
            is_active: true,
        };
        self.subscriptions.push(subscription);
        let enrollment = Enrollment { subscriber: caller, plan_id, subscription_id };
        match self.user_plan_subscription.find(&(caller, plan_id)) {
            Some(i) => {
                self.user_plan_subscription.replace(i, enrollment);
            },
            None => {
                self.user_plan_subscription.append(enrollment);
            },
        }
        Ok(Subscribed { subscription_id, plan_id, subscriber: caller })
    }

    /// Cancels the subscription `subscription_id`: it is no longer in force
    /// and no longer renews. Fails, in this order, with `NotFound` for an
    /// unknown subscription, `Unauthorized` for a caller who is not its
    /// subscriber, and `InvalidState` for one that is not in force.
    pub fn unsubscribe(&mut self, caller: Address, subscription_id: Amount) -> (r: Result<
        Unsubscribed,
        Error,
    >)
        requires
            old(self).wf(),
        ensures
            final(self).wf(),
            match r {
                Ok(notice) => {
                    &&& old(self)@.unsubscribe(caller, subscription_id) == Ok::<
                        SubscriptionManagerView,
                        Error,
                    >(final(self)@)
                    &&& notice == (Unsubscribed { subscription_id, subscriber: caller })
                },
                Err(e) => {
                    &&& old(self)@.unsubscribe(caller, subscription_id) == Err::<
                        SubscriptionManagerView,
                        Error,
                    >(e)
                    &&& final(self)@ == old(self)@
                },
            },
    {
        let place = match self.place_of_subscription(subscription_id) {
            Some(i) => i,
            None => {
                return Err(Error::NotFound);
            },
        };
        let mut subscription = self.subscriptions[place];
        if subscription.subscriber != caller {
            return Err(Error::Unauthorized);
        }
        if !subscription.is_active {
            return Err(Error::InvalidState);
        }
        subscription.is_active = false;
        subscription.auto_renew = false;
        self.subscriptions.set(place, subscription);
        Ok(Unsubscribed { subscription_id, subscriber: caller })
    }

    /// Switches the renewal of the subscription `subscription_id` on or
    /// off. Fails with `NotFound` for an unknown subscription and with
    /// `Unauthorized` for a caller who is not its subscriber.
    pub fn set_auto_renew(&mut self, caller: Address, subscription_id: Amount, auto_renew: bool) -> (r:
        Result<(), Error>)
        requires
            old(self).wf(),
        ensures
            final(self).wf(),
            match r {
                Ok(_) => old(self)@.set_auto_renew(caller, subscription_id, auto_renew) == Ok::<
                    SubscriptionManagerView,
                    Error,
                >(final(self)@),
                Err(e) => {
                    &&& old(self)@.set_auto_renew(caller, subscription_id, auto_renew) == Err::<
                        SubscriptionManagerView,
                        Error,
                    >(e)
                    &&& final(self)@ == old(self)@
                },
            },
    {
        let place = match self.place_of_subscription(subscription_id) {
            Some(i) => i,
            None => {
                return Err(Error::NotFound);
            },
        };
        let mut subscription = self.subscriptions[place];
        if subscription.subscriber != caller {
            return Err(Error::Unauthorized);
        }
        subscription.auto_renew = auto_renew;
        self.subscriptions.set(place, subscription);
        Ok(())
    }

    /// The plan `plan_id`, if there is such a plan.
    pub fn get_plan(&self, plan_id: Amount) -> (r: Option<Plan>)
        ensures
            match r {
                Some(plan) => self@.has_plan(plan_id) && plan@ == self@.plan(plan_id),
                None => !self@.has_plan(plan_id),
            },
    {
        match self.place_of_plan(plan_id) {
            Some(i) => Some(self.plans[i].clone()),
            None => None,
        }
    }

    /// The subscription `subscription_id`, if there is such a subscription.
    pub fn get_subscription(&self, subscription_id: Amount) -> (r: Option<Subscription>)
        ensures
            match r {
                Some(subscription) => self@.has_subscription(subscription_id) && subscription
                    == self@.subscription(subscription_id),
                None => !self@.has_subscription(subscription_id),
            },
    {
        match self.place_of_subscription(subscription_id) {
            Some(i) => Some(self.subscriptions[i]),
            None => None,
        }
    }

    /// The numbers of the plans that `merchant` offers, oldest first.
    pub fn get_merchant_plans(&self, merchant: Address) -> (ids: Vec<Amount>)
        ensures
            ids@ == plan_ids(self@.plans, merchant, self@.plans.len()),
    {
        assert(views(self.plans@).len() == self.plans@.len());
        let mut ids: Vec<Amount> = Vec::new();
        let mut i: usize = 0;
        while i < self.plans.len()
            invariant
                i <= self.plans.len(),
                ids@ == plan_ids(views(self.plans@), merchant, i as nat),
            decreases self.plans.len() - i,
        {
            if self.plans[i].merchant == merchant {
                ids.push(Amount::from_u64((i as u64) + 1));
            }
            i += 1;
        }
        ids
    }

    /// The numbers of the subscriptions that `user` holds or has held,
    /// oldest first.
    pub fn get_user_subscriptions(&self, user: Address) -> (ids: Vec<Amount>)
        ensures
            ids@ == subscription_ids(self@.subscriptions, user, self@.subscriptions.len()),
    {
        let mut ids: Vec<Amount> = Vec::new();
        let mut i: usize = 0;
        while i < self.subscriptions.len()
            invariant
                i <= self.subscriptions.len(),
                ids@ == subscription_ids(self.subscriptions@, user, i as nat),
            decreases self.subscriptions.len() - i,
        {
            if self.subscriptions[i].subscriber == user {
                ids.push(Amount::from_u64((i as u64) + 1));
            }
            i += 1;
        }
        ids
    }

    /// The number of plans.
    pub fn total_plans(&self) -> (n: u64)
        ensures
            n == self@.plans.len(),
    {
        assert(views(self.plans@).len() == self.plans@.len());
        self.plans.len() as u64
    }

    /// The number of subscriptions.
    pub fn total_subscriptions(&self) -> (n: u64)
        ensures
            n == self@.subscriptions.len(),
    {
        self.subscriptions.len() as u64
    }

    /// Names the billing engine. Only the owner may: anyone else is refused
    /// with `Unauthorized`.
    pub fn set_billing_engine(&mut self, caller: Address, address: Address) -> (r: Result<
        (),
        Error,
    >)
        requires
            old(self).wf(),
        ensures
            final(self).wf(),
            r is Ok <==> caller == old(self)@.owner,
            r is Err ==> r == Err::<(), Error>(Error::Unauthorized) && final(self)@ == old(self)@,
            r is Ok ==> final(self)@ == (SubscriptionManagerView {
                billing_engine: Some(address),
                ..old(self)@
            }),
    {
        if caller != self.owner {
            return Err(Error::Unauthorized);
        }
        self.billing_engine = Some(address);
        Ok(())
    }

    /// Names the stake ledger. Only the owner may: anyone else is refused
    /// with `Unauthorized`.
    pub fn set_stake_to_pay(&mut self, caller: Address, address: Address) -> (r: Result<(), Error>)
        requires
            old(self).wf(),
        ensures
            final(self).wf(),
            r is Ok <==> caller == old(self)@.owner,
            r is Err ==> r == Err::<(), Error>(Error::Unauthorized) && final(self)@ == old(self)@,
            r is Ok ==> final(self)@ == (SubscriptionManagerView {
                stake_to_pay: Some(address),
                ..old(self)@
            }),
    {
        if caller != self.owner {
            return Err(Error::Unauthorized);
        }
        self.stake_to_pay = Some(address);
        Ok(())
    }
}

} // verus!
