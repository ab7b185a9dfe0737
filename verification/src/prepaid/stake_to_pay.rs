//! Plain stake balances: what each user has staked, the total staked, and a
//! switch per user and plan for paying the plan out of the stake.

use crate::error::Error;
use crate::identity::Address;
use crate::table::{distinct_keys, holds_key, lemma_place_of, mapping, place_of, Record, Table};
use crate::tally::{
    lemma_total_bounds, lemma_total_push, lemma_total_take, lemma_total_update, total,
};
use crate::wide_amount::{max_wide_amount, WideAmount};
use vstd::prelude::*;

verus! {

/// The stake of one user.
#[derive(Clone, Copy, Debug, PartialEq, Eq, Structural)]
pub struct Stake {
    pub user: Address,
    pub amount: WideAmount,
}

impl View for Stake {
    type V = nat;

    open spec fn view(&self) -> nat {
        self.amount@
    }
}

impl Record for Stake {
    type Key = Address;

    open spec fn key(&self) -> Address {
        self.user
    }

    fn has_key(&self, key: &Address) -> (r: bool) {
        self.user == *key
    }

    fn same_key(&self, other: &Stake) -> (r: bool) {
        self.user == other.user
    }
}

/// The switch of one user for one plan.
#[derive(Clone, Copy, Debug, PartialEq, Eq, Structural)]
pub struct AutoPay {
    pub user: Address,
    pub plan_id: u32,
    pub enabled: bool,
}

impl View for AutoPay {
    type V = bool;

    open spec fn view(&self) -> bool {
        self.enabled
    }
}

impl Record for AutoPay {
    type Key = (Address, u32);

    open spec fn key(&self) -> (Address, u32) {
        (self.user, self.plan_id)
    }

    fn has_key(&self, key: &(Address, u32)) -> (r: bool) {
        self.user == key.0 && self.plan_id == key.1
    }

    fn same_key(&self, other: &AutoPay) -> (r: bool) {
        self.user == other.user && self.plan_id == other.plan_id
    }
}

/// An order to move `amount` out of the ledger's custody to `to`.
#[derive(Clone, Copy, Debug, PartialEq, Eq, Structural)]
pub struct Payout {
    pub to: Address,
    pub amount: WideAmount,
}

/// The stake balances as a mathematical value.
pub struct StakeToPayView {
    /// The owner, who alone can configure the ledger.
    pub owner: Address,
    /// What each user has staked.
    pub stakes: Map<Address, nat>,
    /// The switches that were ever set, by user and plan.
    pub auto_pay: Map<(Address, u32), bool>,
    /// All stakes together.
    pub total_staked: nat,
    /// The subscription registry the ledger works with, once it is set.
    pub subscription_manager: Option<Address>,
}

impl StakeToPayView {
    /// The stake of `user`; zero for a user who never staked.
    pub open spec fn stake_of(self, user: Address) -> nat {
        if self.stakes.contains_key(user) {
            self.stakes[user]
        } else {
            0
        }
    }

    /// Whether `user` pays `plan_id` out of the stake; a switch that was
    /// never set is off.
    pub open spec fn is_auto_pay_enabled(self, user: Address, plan_id: u32) -> bool {
        self.auto_pay.contains_key((user, plan_id)) && self.auto_pay[(user, plan_id)]
    }

    /// A stake of `amount` by `caller`. A zero amount is refused.
    pub open spec fn stake(self, caller: Address, amount: nat) -> Result<StakeToPayView, Error> {
        if amount == 0 {
            Err(Error::InvalidParameter)
        } else {
            Ok(
                StakeToPayView {
                    stakes: self.stakes.insert(caller, self.stake_of(caller) + amount),
                    total_staked: self.total_staked + amount,
                    ..self
                },
            )
        }
    }

    /// A withdrawal of `amount` by `caller`. More than the caller has
    /// staked is refused.
    pub open spec fn withdraw(self, caller: Address, amount: nat) -> Result<
        StakeToPayView,
        Error,
    > {
        if self.stake_of(caller) < amount {
            Err(Error::InsufficientFunds)
        } else {
            Ok(
                StakeToPayView {
                    stakes: self.stakes.insert(caller, (self.stake_of(caller) - amount) as nat),
                    total_staked: (self.total_staked - amount) as nat,
                    ..self
                },
            )
        }
    }

    /// The ledger with the switch of `caller` for `plan_id` set to
    /// `enabled`.
    pub open spec fn set_auto_pay(
        self,
        caller: Address,
        plan_id: u32,
        enabled: bool,
    ) -> StakeToPayView {
        StakeToPayView { auto_pay: self.auto_pay.insert((caller, plan_id), enabled), ..self }
    }
}

/// What each user has staked, in the order of the rows.
pub open spec fn stake_amounts(rows: Seq<Stake>) -> Seq<nat> {
    Seq::new(rows.len(), |i: int| rows[i].amount@)
}

/// The stake balances laid out in plain values, as they are kept between
/// calls.
pub struct StakeToPayState {
    pub owner: Address,
    pub stakes: Vec<Stake>,
    pub auto_pay: Vec<AutoPay>,
    pub total_staked: WideAmount,
    pub subscription_manager: Option<Address>,
}

impl StakeToPayState {
    /// Whether the values make up a ledger: no user has two stakes, no
    /// switch is filed twice, and the total staked is the sum of the
    /// stakes.
    pub open spec fn valid(&self) -> bool {
        &&& distinct_keys(self.stakes@)
        &&& distinct_keys(self.auto_pay@)
        &&& self.total_staked@ == total(stake_amounts(self.stakes@))
    }

    /// The ledger that the values make up.
    pub open spec fn ledger(&self) -> StakeToPayView {
        StakeToPayView {
            owner: self.owner,
            stakes: mapping(self.stakes@),
            auto_pay: mapping(self.auto_pay@),
            total_staked: self.total_staked@,
            subscription_manager: self.subscription_manager,
        }
    }
}

/// The stake balances.
pub struct StakeToPay {
    owner: Address,
    stakes: Table<Stake>,
    auto_pay: Table<AutoPay>,
    total_staked: WideAmount,
    subscription_manager: Option<Address>,
}

impl View for StakeToPay {
    type V = StakeToPayView;

    closed spec fn view(&self) -> StakeToPayView {
        StakeToPayView {
            owner: self.owner,
            stakes: self.stakes@,
            auto_pay: self.auto_pay@,
            total_staked: self.total_staked@,
            subscription_manager: self.subscription_manager,
        }
    }
}

impl StakeToPay {
    /// The invariant of the ledger: no user has two stakes, no switch is
    /// filed twice, and the total staked is the sum of the stakes.
    pub closed spec fn wf(&self) -> bool {
        &&& self.stakes.wf()
        &&& self.auto_pay.wf()
        &&& self.total_staked@ == total(stake_amounts(self.stakes.rows()))
    }

    /// In a well-formed ledger no stake exceeds the total staked.
    pub proof fn lemma_valid(&self, user: Address)
        requires
            self.wf(),
        ensures
            self@.stake_of(user) <= self@.total_staked,
            self@.total_staked <= max_wide_amount(),
    {
        let rows = self.stakes.rows();
        if self@.stakes.contains_key(user) {
            let i = place_of(rows, user)->Some_0;
            assert(holds_key(rows, user, i));
            lemma_total_bounds(stake_amounts(rows), i);
        }
        self.total_staked.lemma_bounded();
    }

    /// The ledger that `state` makes up, or `None` when it makes up none.
    pub fn from_state(state: StakeToPayState) -> (r: Option<StakeToPay>)
        ensures
            match r {
                Some(ledger) => state.valid() && ledger.wf() && ledger@ == state.ledger(),
                None => !state.valid(),
            },
    {
        let ghost amounts = stake_amounts(state.stakes@);
        let mut sum = WideAmount::zero();
        let mut k: usize = 0;
        proof {
            state.total_staked.lemma_bounded();
            assert(amounts.take(0) =~= Seq::<nat>::empty());
        }
        while k < state.stakes.len()
            invariant
                k <= state.stakes.len(),
                amounts == stake_amounts(state.stakes@),
                sum@ == total(amounts.take(k as int)),
                state.total_staked@ <= max_wide_amount(),
            decreases state.stakes.len() - k,
        {
            proof {
                lemma_total_take(amounts, k as int);
            }
            sum = match sum.checked_add(state.stakes[k].amount) {
                Some(next) => next,
                None => {
                    return None;
                },
            };
            k += 1;
        }
        proof {
            assert(amounts.take(k as int) =~= amounts);
        }
        if !(sum.le(&state.total_staked) && state.total_staked.le(&sum)) {
            return None;
        }
        let stakes = match Table::from_rows(state.stakes) {
            Some(table) => table,
            None => {
                return None;
            },
        };
        let auto_pay = match Table::from_rows(state.auto_pay) {
            Some(table) => table,
            None => {
                return None;
            },
        };
        Some(
            StakeToPay {
                owner: state.owner,
                stakes,
                auto_pay,
                total_staked: state.total_staked,
                subscription_manager: state.subscription_manager,
            },
        )
    }

    /// The ledger laid out in plain values.
    pub fn into_state(self) -> (state: StakeToPayState)
        requires
            self.wf(),
        ensures
            state.valid(),
            state.ledger() == self@,
    {
        StakeToPayState {
            owner: self.owner,
            stakes: self.stakes.into_rows(),
            auto_pay: self.auto_pay.into_rows(),
            total_staked: self.total_staked,
            subscription_manager: self.subscription_manager,
        }
    }

    /// A new ledger, owned by `caller`: nothing staked, no switch set.
    pub fn init(caller: Address) -> (ledger: StakeToPay)
        ensures
            ledger.wf(),
            ledger@ == (StakeToPayView {
                owner: caller,
                stakes: Map::empty(),
                auto_pay: Map::empty(),
                total_staked: 0,
                subscription_manager: None,
            }),
    {
        let ledger = StakeToPay {
            owner: caller,
            stakes: Table::new(),
            auto_pay: Table::new(),
            total_staked: WideAmount::zero(),
            subscription_manager: None,
        };
        assert(stake_amounts(ledger.stakes.rows()) =~= Seq::<nat>::empty());
        ledger
    }

    /// Files `amount` as the stake of `user` and lets the total follow.
    fn set_stake(&mut self, user: Address, amount: WideAmount)
        requires
            old(self).wf(),
            old(self)@.total_staked - old(self)@.stake_of(user) + amount@ <= max_wide_amount(),
        ensures
            final(self).wf(),
            final(self)@ == (StakeToPayView {
                stakes: old(self)@.stakes.insert(user, amount@),
                total_staked: (old(self)@.total_staked - old(self)@.stake_of(user)
                    + amount@) as nat,
                ..old(self)@
            }),
    {
        let ghost rows = self.stakes.rows();
        let entry = Stake { user, amount };
        match self.stakes.find(&user) {
            Some(i) => {
                let prior = self.stakes.row(i).amount;
                proof {
                    assert(holds_key(rows, user, i as int));
                    lemma_place_of(rows, user, i as int);
                    lemma_total_bounds(stake_amounts(rows), i as int);
                    lemma_total_update(stake_amounts(rows), i as int, amount@);
                    assert(stake_amounts(rows.update(i as int, entry)) =~= stake_amounts(
                        rows,
                    ).update(i as int, amount@));
                }
                let without = self.total_staked.checked_sub(prior).unwrap();
                self.total_staked = without.checked_add(amount).unwrap();
                self.stakes.replace(i, entry);
            },
            None => {
                proof {
                    lemma_total_push(stake_amounts(rows), amount@);
                    assert(stake_amounts(rows.push(entry)) =~= stake_amounts(rows).push(amount@));
                }
                self.total_staked = self.total_staked.checked_add(amount).unwrap();
                self.stakes.append(entry);
            },
        }
    }

    /// Adds `amount` to the stake of `caller`. A zero amount is refused
    /// with `InvalidParameter`.
    pub fn stake(&mut self, caller: Address, amount: WideAmount) -> (r: Result<(), Error>)
        requires
            old(self).wf(),
            old(self)@.total_staked + amount@ <= max_wide_amount(),
        ensures
            final(self).wf(),
            match r {
                Ok(_) => old(self)@.stake(caller, amount@) == Ok::<StakeToPayView, Error>(
                    final(self)@,
                ),
                Err(e) => {
                    &&& old(self)@.stake(caller, amount@) == Err::<StakeToPayView, Error>(e)
                    &&& final(self)@ == old(self)@
                },
            },
    {
        if amount.is_zero() {
            return Err(Error::InvalidParameter);
        }
        proof {
            self.lemma_valid(caller);
        }
        let current = self.get_stake(caller);
        let raised = current.checked_add(amount).unwrap();
        self.set_stake(caller, raised);
        Ok(())
    }

    /// Takes `amount` out of the stake of `caller` and returns the order to
    /// hand it over. More than the caller has staked is refused with
    /// `InsufficientFunds`.
    pub fn withdraw(&mut self, caller: Address, amount: WideAmount) -> (r: Result<Payout, Error>)
        requires
            old(self).wf(),
        ensures
            final(self).wf(),
            match r {
                Ok(payout) => {
                    &&& old(self)@.withdraw(caller, amount@) == Ok::<StakeToPayView, Error>(
                        final(self)@,
                    )
                    &&& payout == (Payout { to: caller, amount })
                },
                Err(e) => {
                    &&& old(self)@.withdraw(caller, amount@) == Err::<StakeToPayView, Error>(e)
                    &&& final(self)@ == old(self)@
                },
            },
    {
        proof {
            self.lemma_valid(caller);
        }
        let current = self.get_stake(caller);
        let left = match current.checked_sub(amount) {
            Some(left) => left,
            None => {
                return Err(Error::InsufficientFunds);
            },
        };
        self.set_stake(caller, left);
        Ok(Payout { to: caller, amount })
    }

    /// Files the switch of `user` for `plan_id`.
    fn set_auto_pay(&mut self, user: Address, plan_id: u32, enabled: bool)
        requires
            old(self).wf(),
        ensures
            final(self).wf(),
            final(self)@ == old(self)@.set_auto_pay(user, plan_id, enabled),
    {
        let entry = AutoPay { user, plan_id, enabled };
        match self.auto_pay.find(&(user, plan_id)) {
            Some(i) => {
                self.auto_pay.replace(i, entry);
            },
            None => {
                self.auto_pay.append(entry);
            },
        }
    }

    /// Lets `caller` pay `plan_id` out of the stake.
    pub fn enable_auto_pay(&mut self, caller: Address, plan_id: u32)
        requires
            old(self).wf(),
        ensures
            final(self).wf(),
            final(self)@ == old(self)@.set_auto_pay(caller, plan_id, true),
    {
        self.set_auto_pay(caller, plan_id, true);
    }

    /// Stops `caller` paying `plan_id` out of the stake.
    pub fn disable_auto_pay(&mut self, caller: Address, plan_id: u32)
        requires
            old(self).wf(),
        ensures
            final(self).wf(),
            final(self)@ == old(self)@.set_auto_pay(caller, plan_id, false),
    {
        self.set_auto_pay(caller, plan_id, false);
    }

    /// Whether `user` pays `plan_id` out of the stake.
    pub fn is_auto_pay_enabled(&self, user: Address, plan_id: u32) -> (r: bool)
        requires
            self.wf(),
        ensures
            r == self@.is_auto_pay_enabled(user, plan_id),
    {
        match self.auto_pay.get(&(user, plan_id)) {
            Some(switch) => switch.enabled,
            None => false,
        }
    }

    /// The stake of `user`; zero for a user who never staked.
    pub fn get_stake(&self, user: Address) -> (r: WideAmount)
        requires
            self.wf(),
        ensures
            r@ == self@.stake_of(user),
    {
        match self.stakes.get(&user) {
            Some(stake) => stake.amount,
            None => WideAmount::zero(),
        }
    }

    /// All stakes together.
    pub fn total_staked(&self) -> (r: WideAmount)
        ensures
            r@ == self@.total_staked,
    {
        self.total_staked
    }

    /// The owner of the ledger.
    pub fn owner(&self) -> (r: Option<Address>)
        ensures
            r == Some(self@.owner),
    {
        Some(self.owner)
    }

    /// What the stake of `user` would earn in a year at five percent: a
    /// twentieth of the stake, rounded down.
    pub fn estimate_yearly_rewards(&self, user: Address) -> (r: WideAmount)
        requires
            self.wf(),
        ensures
            r@ == self@.stake_of(user) / 20,
    {
        let stake = self.get_stake(user);
        stake.checked_div(WideAmount::from_u64(20)).unwrap()
    }

    /// Names the subscription registry. Only the owner may: anyone else is
    /// refused with `Unauthorized`.
    pub fn set_subscription_manager(&mut self, caller: Address, manager: Address) -> (r: Result<
        (),
        Error,
    >)
        requires
            old(self).wf(),
        ensures
            final(self).wf(),
            r is Ok <==> caller == old(self)@.owner,
            r is Err ==> r == Err::<(), Error>(Error::Unauthorized) && final(self)@ == old(self)@,
            r is Ok ==> final(self)@ == (StakeToPayView {
                subscription_manager: Some(manager),
                ..old(self)@
            }),
    {
        if caller != self.owner {
            return Err(Error::Unauthorized);
        }
        self.subscription_manager = Some(manager);
        Ok(())
    }
}

} // verus!
