//! Plans at a fixed price per period and subscriptions that run until they
//! expire: each payment of the price extends the term by one period.

use crate::error::Error;
use crate::identity::Address;
use crate::prepaid::stake_to_pay::Payout;
use crate::table::{distinct_keys, mapping, Record, Table};
use crate::tally::views;
use crate::wide_amount::{max_wide_amount, WideAmount};
use vstd::prelude::*;

verus! {

/// A plan.
#[derive(Debug, PartialEq, Eq)]
pub struct Plan {
    /// The price of one period.
    pub price: WideAmount,
    /// The length of a period, in seconds.
    pub period: u64,
    /// The name of the plan.
    pub name: String,
    /// The merchant who offers the plan and receives the price.
    pub merchant: Address,
    /// How many subscribers the plan has had.
    pub subscribers: u32,
}

/// A plan with its price as a natural number.
pub struct PlanView {
    pub price: nat,
    pub period: u64,
    pub name: Seq<char>,
    pub merchant: Address,
    pub subscribers: u32,
}

impl View for Plan {
    type V = PlanView;

    open spec fn view(&self) -> PlanView {
        PlanView {
            price: self.price@,
            period: self.period,
            name: self.name@,
            merchant: self.merchant,
            subscribers: self.subscribers,
        }
    }
}

impl Clone for Plan {
    fn clone(&self) -> (r: Plan)
        ensures
            r == *self,
    {
        Plan {
            price: self.price,
            period: self.period,
            name: self.name.clone(),
            merchant: self.merchant,
            subscribers: self.subscribers,
        }
    }
}

/// The term of a subscriber to a plan.
#[derive(Clone, Copy, Debug, PartialEq, Eq, Structural)]
pub struct Term {
    pub subscriber: Address,
    pub plan_id: u32,
    pub expiry: u64,
}

impl View for Term {
    type V = u64;

    open spec fn view(&self) -> u64 {
        self.expiry
    }
}

impl Record for Term {
    type Key = (Address, u32);

    open spec fn key(&self) -> (Address, u32) {
        (self.subscriber, self.plan_id)
    }

    fn has_key(&self, key: &(Address, u32)) -> (r: bool) {
        self.subscriber == key.0 && self.plan_id == key.1
    }

    fn same_key(&self, other: &Term) -> (r: bool) {
        self.subscriber == other.subscriber && self.plan_id == other.plan_id
    }
}

/// The registry as a mathematical value.
pub struct SubscriptionManagerView {
    /// The owner of the registry.
    pub owner: Address,
    /// The plans, oldest first; they are numbered from one.
    pub plans: Seq<PlanView>,
    /// When the term of each subscriber to each plan expires.
    pub subscriptions: Map<(Address, u32), u64>,
    /// The prices collected so far.
    pub total_revenue: nat,
}

impl SubscriptionManagerView {
    /// Whether a plan has the number `plan_id`.
    pub open spec fn has_plan(self, plan_id: u32) -> bool {
        1 <= plan_id <= self.plans.len()
    }

    /// The plan with the number `plan_id`.
    pub open spec fn plan(self, plan_id: u32) -> PlanView {
        self.plans[plan_id - 1]
    }

    /// The price of `plan_id`; zero for an unknown plan.
    pub open spec fn price_of(self, plan_id: u32) -> nat {
        if self.has_plan(plan_id) {
            self.plan(plan_id).price
        } else {
            0
        }
    }

    /// When the term of `subscriber` to `plan_id` expires; zero for one who
    /// never subscribed.
    pub open spec fn expiry_of(self, subscriber: Address, plan_id: u32) -> u64 {
        if self.subscriptions.contains_key((subscriber, plan_id)) {
            self.subscriptions[(subscriber, plan_id)]
        } else {
            0
        }
    }

    /// Whether the term of `subscriber` to `plan_id` runs at `now`.
    pub open spec fn is_subscribed(self, subscriber: Address, plan_id: u32, now: u64) -> bool {
        self.expiry_of(subscriber, plan_id) > now
    }

    /// When a term paid for at `now` expires: one period after the running
    /// term, or one period after `now` when no term runs.
    pub open spec fn next_expiry(self, subscriber: Address, plan_id: u32, now: u64) -> int {
        if self.expiry_of(subscriber, plan_id) > now {
            self.expiry_of(subscriber, plan_id) + self.plan(plan_id).period
        } else {
            now + self.plan(plan_id).period
        }
    }

    /// How many subscribers `plan_id` has had once `subscriber` has paid: one
    /// more for a first subscription.
    pub open spec fn next_subscribers(self, subscriber: Address, plan_id: u32) -> int {
        if self.expiry_of(subscriber, plan_id) == 0 {
            self.plan(plan_id).subscribers + 1
        } else {
            self.plan(plan_id).subscribers as int
        }
    }

    /// A subscription of `caller`, who has attached `attached`, to
    /// `plan_id` at `now`. Refused, in this order: an unknown plan or one
    /// without a price; an attached value below the price.
    pub open spec fn subscribe(
        self,
        caller: Address,
        attached: nat,
        plan_id: u32,
        now: u64,
    ) -> Result<SubscriptionManagerView, Error> {
        if self.price_of(plan_id) == 0 {
            Err(Error::NotFound)
        } else if attached < self.price_of(plan_id) {
            Err(Error::InsufficientFunds)
        } else {
            Ok(
                SubscriptionManagerView {
                    plans: self.plans.update(
                        plan_id - 1,
                        PlanView {
                            subscribers: self.next_subscribers(caller, plan_id) as u32,
                            ..self.plan(plan_id)
                        },
                    ),
                    subscriptions: self.subscriptions.insert(
                        (caller, plan_id),
                        self.next_expiry(caller, plan_id, now) as u64,
                    ),
                    total_revenue: self.total_revenue + self.price_of(plan_id),
                    ..self
                },
            )
        }
    }
}

/// The registry laid out in plain values, as it is kept between calls.
pub struct SubscriptionManagerState {
    pub owner: Address,
    pub plans: Vec<Plan>,
    pub subscriptions: Vec<Term>,
    pub total_revenue: WideAmount,
}

impl SubscriptionManagerState {
    /// Whether the values make up a registry: no term is filed twice, and
    /// the plans can be counted in 32 bits.
    pub open spec fn valid(&self) -> bool {
        &&& distinct_keys(self.subscriptions@)
        &&& self.plans@.len() <= u32::MAX
    }

    /// The registry that the values make up.
    pub open spec fn registry(&self) -> SubscriptionManagerView {
        SubscriptionManagerView {
            owner: self.owner,
            plans: views(self.plans@),
            subscriptions: mapping(self.subscriptions@),
            total_revenue: self.total_revenue@,
        }
    }
}

/// The registry.
pub struct SubscriptionManager {
    owner: Address,
    plans: Vec<Plan>,
    subscriptions: Table<Term>,
    total_revenue: WideAmount,
}

impl View for SubscriptionManager {
    type V = SubscriptionManagerView;

    closed spec fn view(&self) -> SubscriptionManagerView {
        SubscriptionManagerView {
            owner: self.owner,
            plans: views(self.plans@),
            subscriptions: self.subscriptions@,
            total_revenue: self.total_revenue@,
        }
    }
}

impl SubscriptionManager {
    /// The invariant of the registry: no term is filed twice, and the plans
    /// can be counted in 32 bits.
    pub closed spec fn wf(&self) -> bool {
        &&& self.subscriptions.wf()
        &&& self.plans@.len() <= u32::MAX
    }

    /// The registry that `state` makes up, or `None` when it makes up none.
    pub fn from_state(state: SubscriptionManagerState) -> (r: Option<SubscriptionManager>)
        ensures
            match r {
                Some(registry) => state.valid() && registry.wf() && registry@ == state.registry(),
                None => !state.valid(),
            },
    {
        if state.plans.len() > 0xffff_ffff {
            return None;
        }
        let subscriptions = match Table::from_rows(state.subscriptions) {
            Some(table) => table,
            None => {
                return None;
            },
        };
        Some(
            SubscriptionManager {
                owner: state.owner,
                plans: state.plans,
                subscriptions,
                total_revenue: state.total_revenue,
            },
        )
    }

    /// The registry laid out in plain values.
    pub fn into_state(self) -> (state: SubscriptionManagerState)
        requires
            self.wf(),
        ensures
            state.valid(),
            state.registry() == self@,
    {
        SubscriptionManagerState {
            owner: self.owner,
            plans: self.plans,
            subscriptions: self.subscriptions.into_rows(),
            total_revenue: self.total_revenue,
        }
    }

    /// A new registry, owned by `caller`: no plans, no revenue.
    pub fn init(caller: Address) -> (registry: SubscriptionManager)
        ensures
            registry.wf(),
            registry@ == (SubscriptionManagerView {
                owner: caller,
                plans: Seq::empty(),
                subscriptions: Map::empty(),
                total_revenue: 0,
            }),
    {
        let registry = SubscriptionManager {
            owner: caller,
            plans: Vec::new(),
            subscriptions: Table::new(),
            total_revenue: WideAmount::zero(),
        };
        assert(views(registry.plans@) =~= Seq::<PlanView>::empty());
        registry
    }

    /// The place of the plan `plan_id`, if there is such a plan.
    fn place_of_plan(&self, plan_id: u32) -> (r: Option<usize>)
        requires
            self.wf(),
        ensures
            match r {
                Some(i) => self@.has_plan(plan_id) && i == plan_id - 1 && i < self.plans@.len(),
                None => !self@.has_plan(plan_id),
            },
    {
        assert(views(self.plans@).len() == self.plans@.len());
        if plan_id == 0 || plan_id as usize > self.plans.len() {
            None
        } else {
            Some((plan_id - 1) as usize)
        }
    }

    /// Files a plan offered by `caller` and returns its number.
    pub fn create_plan(
        &mut self,
        caller: Address,
        price: WideAmount,
        period_seconds: u64,
        name: String,
    ) -> (plan_id: u32)
        requires
            old(self).wf(),
            old(self)@.plans.len() < u32::MAX,
        ensures
            final(self).wf(),
            plan_id == old(self)@.plans.len() + 1,
            final(self)@ == (SubscriptionManagerView {
                plans: old(self)@.plans.push(
                    PlanView {
                        price: price@,
                        period: period_seconds,
                        name: name@,
                        merchant: caller,
                        subscribers: 0,
                    },
                ),
                ..old(self)@
            }),
    {
        assert(views(self.plans@).len() == self.plans@.len());
        let plan_id: u32 = (self.plans.len() as u32) + 1;
        let plan = Plan { price, period: period_seconds, name, merchant: caller, subscribers: 0 };
        let ghost filed = self.plans@;
        let ghost entry = plan@;
        self.plans.push(plan);
        proof {
            assert(views(self.plans@) =~= views(filed).push(entry));
        }
        plan_id
    }

    /// Whether a subscription stays in range: true unless it would be
    /// accepted and the expiry, the count of subscribers or the revenue
    /// would leave its range.
    pub fn subscription_in_range(
        &self,
        caller: Address,
        attached: WideAmount,
        plan_id: u32,
        now: u64,
    ) -> (r: bool)
        requires
            self.wf(),
        ensures
            r == (self@.subscribe(caller, attached@, plan_id, now) is Ok ==> {
                &&& self@.next_expiry(caller, plan_id, now) <= u64::MAX
                &&& self@.next_subscribers(caller, plan_id) <= u32::MAX
                &&& self@.total_revenue + self@.price_of(plan_id) <= max_wide_amount()
            }),
    {
        let place = match self.place_of_plan(plan_id) {
            Some(i) => i,
            None => {
                return true;
            },
        };
        assert(views(self.plans@)[place as int] == self.plans@[place as int]@);
        let price = self.plans[place].price;
        if price.is_zero() || attached.lt(&price) {
            return true;
        }
        let running = self.get_expiry(caller, plan_id);
        let from: u64 = if running > now {
            running
        } else {
            now
        };
        from.checked_add(self.plans[place].period).is_some() && !(running == 0
            && self.plans[place].subscribers == u32::MAX) && self.total_revenue.checked_add(
            price,
        ).is_some()
    }

    /// Subscribes `caller` to `plan_id` for one period more: the term runs
    /// on from its expiry when it still runs at `now`, from `now`
    /// otherwise. The price counts as revenue and is to go to the merchant;
    /// a first subscription counts as a subscriber of the plan. `attached`
    /// is what the caller has sent along. Fails with `NotFound` for an
    /// unknown plan or one without a price, and with `InsufficientFunds`
    /// for an attached value below the price.
    pub fn subscribe(
        &mut self,
        caller: Address,
        attached: WideAmount,
        plan_id: u32,
        now: u64,
    ) -> (r: Result<Payout, Error>)
        requires
            old(self).wf(),
            old(self)@.subscribe(caller, attached@, plan_id, now) is Ok ==> {
                &&& old(self)@.next_expiry(caller, plan_id, now) <= u64::MAX
                &&& old(self)@.next_subscribers(caller, plan_id) <= u32::MAX
                &&& old(self)@.total_revenue + old(self)@.price_of(plan_id) <= max_wide_amount()
            },
        ensures
            final(self).wf(),
            match r {
                Ok(payout) => {
                    &&& old(self)@.subscribe(caller, attached@, plan_id, now) == Ok::<
                        SubscriptionManagerView,
                        Error,
                    >(final(self)@)
                    &&& payout.to == old(self)@.plan(plan_id).merchant
                    &&& payout.amount@ == old(self)@.price_of(plan_id)
                },
                Err(e) => {
                    &&& old(self)@.subscribe(caller, attached@, plan_id, now) == Err::<
                        SubscriptionManagerView,
                        Error,
                    >(e)
                    &&& final(self)@ == old(self)@
                },
            },
    {
        let place = match self.place_of_plan(plan_id) {
            Some(i) => i,
            None => {
                return Err(Error::NotFound);
            },
        };
        let mut plan = self.plans[place].clone();
        let price = plan.price;
        if price.is_zero() {
            return Err(Error::NotFound);
        }
        if attached.lt(&price) {
            return Err(Error::InsufficientFunds);
        }
        let found = self.subscriptions.find(&(caller, plan_id));
        let existing_expiry: u64 = match found {
            Some(i) => self.subscriptions.row(i).expiry,
            None => 0,
        };
        let new_expiry: u64 = if existing_expiry > now {
            existing_expiry + plan.period
        } else {
            now + plan.period
        };
        let term = Term { subscriber: caller, plan_id, expiry: new_expiry };
        match found {
            Some(i) => {
                self.subscriptions.replace(i, term);
            },
            None => {
                self.subscriptions.append(term);
            },
        }
        if existing_expiry == 0 {
            plan.subscribers = plan.subscribers + 1;
        }
        let merchant = plan.merchant;
        let ghost filed = self.plans@;
        let ghost entry = plan@;
        self.plans.set(place, plan);
        proof {
            assert(views(self.plans@) =~= views(filed).update(place as int, entry));
        }
        self.total_revenue = self.total_revenue.checked_add(price).unwrap();
        Ok(Payout { to: merchant, amount: price })
    }

    /// Whether the term of `subscriber` to `plan_id` runs at `now`.
    pub fn is_subscribed(&self, subscriber: Address, plan_id: u32, now: u64) -> (r: bool)
        requires
            self.wf(),
        ensures
            r == self@.is_subscribed(subscriber, plan_id, now),
    {
        self.get_expiry(subscriber, plan_id) > now
    }

    /// When the term of `subscriber` to `plan_id` expires; zero for one who
    /// never subscribed.
    pub fn get_expiry(&self, subscriber: Address, plan_id: u32) -> (r: u64)
        requires
            self.wf(),
        ensures
            r == self@.expiry_of(subscriber, plan_id),
    {
        match self.subscriptions.get(&(subscriber, plan_id)) {
            Some(term) => term.expiry,
            None => 0,
        }
    }

    /// The price of `plan_id`; zero for an unknown plan.
    pub fn get_plan_price(&self, plan_id: u32) -> (r: WideAmount)
        requires
            self.wf(),
        ensures
            r@ == self@.price_of(plan_id),
    {
        match self.place_of_plan(plan_id) {
            Some(i) => self.plans[i].price,
            None => WideAmount::zero(),
        }
    }

    /// The length of a period of `plan_id`; zero for an unknown plan.
    pub fn get_plan_period(&self, plan_id: u32) -> (r: u64)
        requires
            self.wf(),
        ensures
            r == if self@.has_plan(plan_id) {
                self@.plan(plan_id).period
            } else {
                0
            },
    {
        match self.place_of_plan(plan_id) {
            Some(i) => self.plans[i].period,
            None => 0,
        }
    }

    /// The name of `plan_id`; empty for an unknown plan.
    pub fn get_plan_name(&self, plan_id: u32) -> (r: String)
        requires
            self.wf(),
        ensures
            r@ == if self@.has_plan(plan_id) {
                self@.plan(plan_id).name
            } else {
                Seq::<char>::empty()
            },
    {
        match self.place_of_plan(plan_id) {
            Some(i) => self.plans[i].name.clone(),
            None => String::new(),
        }
    }

    /// The merchant of `plan_id`, if there is such a plan.
    pub fn get_plan_merchant(&self, plan_id: u32) -> (r: Option<Address>)
        requires
            self.wf(),
        ensures
            r == if self@.has_plan(plan_id) {
                Some(self@.plan(plan_id).merchant)
            } else {
                None
            },
    {
        match self.place_of_plan(plan_id) {
            Some(i) => Some(self.plans[i].merchant),
            None => None,
        }
    }

    /// How many subscribers `plan_id` has had; zero for an unknown plan.
    pub fn get_plan_subscribers(&self, plan_id: u32) -> (r: u32)
        requires
            self.wf(),
        ensures
            r == if self@.has_plan(plan_id) {
                self@.plan(plan_id).subscribers
            } else {
                0
            },
    {
        match self.place_of_plan(plan_id) {
            Some(i) => self.plans[i].subscribers,
            None => 0,
        }
    }

    /// The number of plans.
    pub fn plan_count(&self) -> (n: u32)
        requires
            self.wf(),
        ensures
            n == self@.plans.len(),
    {
        assert(views(self.plans@).len() == self.plans@.len());
        self.plans.len() as u32
    }

    /// The prices collected so far.
    pub fn total_revenue(&self) -> (r: WideAmount)
        ensures
            r@ == self@.total_revenue,
    {
        self.total_revenue
    }

    /// The owner of the registry.
    pub fn owner(&self) -> (r: Option<Address>)
        ensures
            r == Some(self@.owner),
    {
        Some(self.owner)
    }
}

} // verus!
