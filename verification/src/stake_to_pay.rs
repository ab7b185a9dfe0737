//! Stake-to-pay: deposits that earn yield, and payments drawn from that
//! yield before they touch the deposit.
//!
//! Every call that reads or debits a balance first brings the account's
//! rewards up to the time of the call. A debit then takes from the rewards
//! as far as they go and from the principal for the rest.

use crate::accrual::{checked_yield, lemma_yield_linear, lemma_yield_zero, yield_for};
use crate::amount::{max_amount, Amount};
use crate::error::Error;
use crate::identity::Address;
use crate::table::{distinct_keys, holds_key, lemma_place_of, mapping, place_of, Record, Table};
use crate::tally::{
    lemma_total_bounds, lemma_total_push, lemma_total_take, lemma_total_update, total, views,
};
use vstd::prelude::*;

verus! {

/// The highest yearly rate the owner can set, in basis points.
pub const MAX_APY_BPS: u64 = 2000;

/// The yearly rate of a new ledger, in basis points.
pub const DEFAULT_APY_BPS: u64 = 800;

/// The stake position of one user.
#[derive(Clone, Copy, Debug, PartialEq, Eq, Structural)]
pub struct StakeConfig {
    /// The holder of the position.
    pub user: Address,
    /// The principal: what the user has deposited and not taken out.
    pub staked_amount: Amount,
    /// Yield that was computed and not yet spent or withdrawn.
    pub accumulated_rewards: Amount,
    /// The rewards spent on payments so far.
    pub total_rewards_used: Amount,
    /// Whether payments may be drawn from the position.
    pub is_enabled: bool,
    /// The time up to which yield has been computed.
    pub last_updated: u64,
}

/// A stake position with its balances as natural numbers.
pub struct StakeConfigView {
    pub user: Address,
    pub staked_amount: nat,
    pub accumulated_rewards: nat,
    pub total_rewards_used: nat,
    pub is_enabled: bool,
    pub last_updated: u64,
}

impl View for StakeConfig {
    type V = StakeConfigView;

    open spec fn view(&self) -> StakeConfigView {
        StakeConfigView {
            user: self.user,
            staked_amount: self.staked_amount@,
            accumulated_rewards: self.accumulated_rewards@,
            total_rewards_used: self.total_rewards_used@,
            is_enabled: self.is_enabled,
            last_updated: self.last_updated,
        }
    }
}

impl Record for StakeConfig {
    type Key = Address;

    open spec fn key(&self) -> Address {
        self.user
    }

    fn has_key(&self, key: &Address) -> (r: bool) {
        self.user == *key
    }

    fn same_key(&self, other: &StakeConfig) -> (r: bool) {
        self.user == other.user
    }
}

impl StakeConfigView {
    /// The position of a user who has deposited nothing yet.
    pub open spec fn fresh(user: Address, now: u64) -> StakeConfigView {
        StakeConfigView {
            user,
            staked_amount: 0,
            accumulated_rewards: 0,
            total_rewards_used: 0,
            is_enabled: true,
            last_updated: now,
        }
    }

    /// The seconds from the last update to `now`; zero when the clock has
    /// not moved forward.
    pub open spec fn elapsed(self, now: u64) -> nat {
        if now > self.last_updated {
            (now - self.last_updated) as nat
        } else {
            0
        }
    }

    /// The yield earned since the last update and not yet added to the
    /// rewards.
    pub open spec fn pending(self, rate_bps: u64, now: u64) -> nat {
        yield_for(self.staked_amount, rate_bps as nat, self.elapsed(now))
    }

    /// The position with its rewards brought up to `now`. Without principal
    /// or without time elapsed nothing changes, the time of the last update
    /// included.
    pub open spec fn accrue(self, rate_bps: u64, now: u64) -> StakeConfigView {
        if self.staked_amount == 0 || self.elapsed(now) == 0 {
            self
        } else {
            StakeConfigView {
                accumulated_rewards: self.accumulated_rewards + self.pending(rate_bps, now),
                last_updated: now,
                ..self
            }
        }
    }

    /// The position marked as seen at `now`. The mark never moves back.
    pub open spec fn stamp(self, now: u64) -> StakeConfigView {
        StakeConfigView {
            last_updated: if now > self.last_updated {
                now
            } else {
                self.last_updated
            },
            ..self
        }
    }

    /// What the position can pay: rewards and principal together.
    pub open spec fn holdings(self) -> nat {
        self.accumulated_rewards + self.staked_amount
    }

    /// The part of a debit of `amount` that the rewards bear.
    pub open spec fn from_rewards(self, amount: nat) -> nat {
        if amount <= self.accumulated_rewards {
            amount
        } else {
            self.accumulated_rewards
        }
    }

    /// The part of a debit of `amount` that the principal bears.
    pub open spec fn from_principal(self, amount: nat) -> nat {
        (amount - self.from_rewards(amount)) as nat
    }

    /// The position after a debit of `amount`: rewards first, principal for
    /// the rest.
    pub open spec fn allocate(self, amount: nat) -> StakeConfigView {
        StakeConfigView {
            accumulated_rewards: (self.accumulated_rewards - self.from_rewards(amount)) as nat,
            staked_amount: (self.staked_amount - self.from_principal(amount)) as nat,
            ..self
        }
    }
}

impl StakeConfig {
    /// The position of a user who has deposited nothing yet.
    pub fn new(user: Address, now: u64) -> (config: StakeConfig)
        ensures
            config@ == StakeConfigView::fresh(user, now),
    {
        StakeConfig {
            user,
            staked_amount: Amount::zero(),
            accumulated_rewards: Amount::zero(),
            total_rewards_used: Amount::zero(),
            is_enabled: true,
            last_updated: now,
        }
    }

    /// The yield earned since the last update, or `None` when it does not fit
    /// in 256 bits.
    pub fn pending_rewards(&self, rate_bps: u64, now: u64) -> (r: Option<Amount>)
        ensures
            match r {
                Some(y) => y@ == self@.pending(rate_bps, now) && y@ <= max_amount(),
                None => self@.pending(rate_bps, now) > max_amount(),
            },
    {
        let elapsed: u64 = if now > self.last_updated {
            now - self.last_updated
        } else {
            0
        };
        checked_yield(self.staked_amount, rate_bps, elapsed)
    }

    /// Brings the rewards up to `now` and returns what was added. Without
    /// principal or without time elapsed, adds nothing, returns zero and
    /// leaves the time of the last update alone.
    pub fn accrue(&mut self, rate_bps: u64, now: u64) -> (added: Amount)
        requires
            old(self)@.accumulated_rewards + old(self)@.pending(rate_bps, now) <= max_amount(),
        ensures
            final(self)@ == old(self)@.accrue(rate_bps, now),
            added@ == old(self)@.pending(rate_bps, now),
    {
        if self.staked_amount.is_zero() || now <= self.last_updated {
            proof {
                lemma_yield_zero(self@.staked_amount, rate_bps as nat, self@.elapsed(now));
            }
            return Amount::zero();
        }
        proof {
            self.accumulated_rewards.lemma_bounded();
        }
        let added = self.pending_rewards(rate_bps, now).unwrap();
        self.accumulated_rewards = self.accumulated_rewards.checked_add(added).unwrap();
        self.last_updated = now;
        added
    }

    /// Marks the position as seen at `now`, unless it was seen later.
    pub fn stamp(&mut self, now: u64)
        ensures
            final(self)@ == old(self)@.stamp(now),
    {
        if now > self.last_updated {
            self.last_updated = now;
        }
    }

    /// Debits `amount`: from the rewards as far as they go, from the
    /// principal for the rest. Returns the two parts, rewards first. When
    /// rewards and principal together do not cover `amount`, fails with
    /// `InsufficientFunds` and debits nothing.
    pub fn allocate(&mut self, amount: Amount) -> (r: Result<(Amount, Amount), Error>)
        ensures
            match r {
                Ok((from_rewards, from_principal)) => {
                    &&& amount@ <= old(self)@.holdings()
                    &&& from_rewards@ == old(self)@.from_rewards(amount@)
                    &&& from_principal@ == old(self)@.from_principal(amount@)
                    &&& final(self)@ == old(self)@.allocate(amount@)
                },
                Err(e) => {
                    &&& e == Error::InsufficientFunds
                    &&& amount@ > old(self)@.holdings()
                    &&& *final(self) == *old(self)
                },
            },
    {
        if amount.le(&self.accumulated_rewards) {
            self.accumulated_rewards = self.accumulated_rewards.checked_sub(amount).unwrap();
            return Ok((amount, Amount::zero()));
        }
        let rest = amount.checked_sub(self.accumulated_rewards).unwrap();
        if !rest.le(&self.staked_amount) {
            return Err(Error::InsufficientFunds);
        }
        let from_rewards = self.accumulated_rewards;
        self.accumulated_rewards = Amount::zero();
        self.staked_amount = self.staked_amount.checked_sub(rest).unwrap();
        Ok((from_rewards, rest))
    }
}

/// Accrual is linear in time up to rounding. Bringing a position up to date
/// at one time and again at a later time yields, in all, what one update at
/// the later time yields, or one unit less; both ways leave the same time of
/// last update and touch nothing but the rewards.
pub proof fn lemma_accrual_linear(config: StakeConfigView, rate_bps: u64, t1: u64, t2: u64)
    requires
        config.last_updated <= t1 <= t2,
    ensures
        config.accrue(rate_bps, t1).accrue(rate_bps, t2).accumulated_rewards <= config.accrue(
            rate_bps,
            t2,
        ).accumulated_rewards,
        config.accrue(rate_bps, t2).accumulated_rewards <= config.accrue(rate_bps, t1).accrue(
            rate_bps,
            t2,
        ).accumulated_rewards + 1,
        config.accrue(rate_bps, t1).accrue(rate_bps, t2) == (StakeConfigView {
            accumulated_rewards: config.accrue(rate_bps, t1).accrue(
                rate_bps,
                t2,
            ).accumulated_rewards,
            ..config.accrue(rate_bps, t2)
        }),
{
    let e1 = (t1 - config.last_updated) as nat;
    let e2 = (t2 - t1) as nat;
    lemma_yield_linear(config.staked_amount, rate_bps as nat, e1, e2);
    lemma_yield_zero(config.staked_amount, rate_bps as nat, 0);
}

/// Bringing a position up to date adds the pending yield to the rewards and
/// changes no other balance.
pub proof fn lemma_accrue_adds_pending(config: StakeConfigView, rate_bps: u64, now: u64)
    ensures
        config.accrue(rate_bps, now).accumulated_rewards == config.accumulated_rewards
            + config.pending(rate_bps, now),
        config.accrue(rate_bps, now).staked_amount == config.staked_amount,
        config.accrue(rate_bps, now).total_rewards_used == config.total_rewards_used,
        config.accrue(rate_bps, now).user == config.user,
        config.accrue(rate_bps, now).is_enabled == config.is_enabled,
{
    if config.staked_amount == 0 || config.elapsed(now) == 0 {
        lemma_yield_zero(config.staked_amount, rate_bps as nat, config.elapsed(now));
    }
}

/// Nothing is counted twice: a position that was brought up to date at some
/// time is unchanged by a second update at that time, which adds zero.
pub proof fn lemma_accrue_twice(config: StakeConfigView, rate_bps: u64, now: u64)
    ensures
        config.accrue(rate_bps, now).pending(rate_bps, now) == 0,
        config.accrue(rate_bps, now).accrue(rate_bps, now) == config.accrue(rate_bps, now),
{
    let once = config.accrue(rate_bps, now);
    lemma_yield_zero(once.staked_amount, rate_bps as nat, once.elapsed(now));
}

/// The spend order. A debit that rewards and principal cover leaves
/// `max(0, R - A)` in rewards and `P - max(0, A - R)` in principal, and takes
/// from both together exactly the amount debited.
pub proof fn lemma_spend_order(config: StakeConfigView, amount: nat)
    requires
        amount <= config.holdings(),
    ensures
        config.allocate(amount).accumulated_rewards == if config.accumulated_rewards >= amount {
            config.accumulated_rewards - amount
        } else {
            0
        },
        config.allocate(amount).staked_amount == config.staked_amount - if amount
            >= config.accumulated_rewards {
            amount - config.accumulated_rewards
        } else {
            0
        },
        config.from_rewards(amount) + config.from_principal(amount) == amount,
        config.allocate(amount).holdings() + amount == config.holdings(),
        config.from_principal(amount) > 0 ==> config.allocate(amount).accumulated_rewards == 0,
{
}


/// A payment made out of a stake position.
#[derive(Clone, Copy, Debug, PartialEq, Eq, Structural)]
pub struct StakePayment {
    /// The number of the payment, counted from one.
    pub id: Amount,
    /// The user who paid.
    pub user: Address,
    /// The invoice that was paid.
    pub invoice_id: Amount,
    /// The amount paid.
    pub amount: Amount,
    /// The time of the payment.
    pub paid_at: u64,
}

/// A payment with its amount as a natural number.
pub struct StakePaymentView {
    pub id: Amount,
    pub user: Address,
    pub invoice_id: Amount,
    pub amount: nat,
    pub paid_at: u64,
}

impl View for StakePayment {
    type V = StakePaymentView;

    open spec fn view(&self) -> StakePaymentView {
        StakePaymentView {
            id: self.id,
            user: self.user,
            invoice_id: self.invoice_id,
            amount: self.amount@,
            paid_at: self.paid_at,
        }
    }
}

/// Notice that a user has deposited.
#[derive(Clone, Copy, Debug, PartialEq, Eq, Structural)]
pub struct StakeDeposited {
    pub user: Address,
    pub amount: Amount,
    pub total_staked: Amount,
}

/// Notice that a user has withdrawn.
#[derive(Clone, Copy, Debug, PartialEq, Eq, Structural)]
pub struct StakeWithdrawn {
    pub user: Address,
    pub amount: Amount,
    pub remaining: Amount,
}

/// Notice that yield was added to a user's rewards.
#[derive(Clone, Copy, Debug, PartialEq, Eq, Structural)]
pub struct RewardsAccumulated {
    pub user: Address,
    pub amount: Amount,
    pub total_rewards: Amount,
}

/// Notice that an invoice was paid out of a stake position.
#[derive(Clone, Copy, Debug, PartialEq, Eq, Structural)]
pub struct PaymentFromRewards {
    pub user: Address,
    pub invoice_id: Amount,
    pub amount: Amount,
    pub remaining_rewards: Amount,
}

/// Notice that a user allows payments from the stake position.
#[derive(Clone, Copy, Debug, PartialEq, Eq, Structural)]
pub struct StakeToPayEnabled {
    pub user: Address,
}

/// Notice that a user no longer allows payments from the stake position.
#[derive(Clone, Copy, Debug, PartialEq, Eq, Structural)]
pub struct StakeToPayDisabled {
    pub user: Address,
}

/// An order to move `amount` out of the ledger's custody to `to`.
#[derive(Clone, Copy, Debug, PartialEq, Eq, Structural)]
pub struct Transfer {
    pub to: Address,
    pub amount: Amount,
}

/// What a deposit hands back: the notices to send.
#[derive(Clone, Copy, Debug, PartialEq, Eq, Structural)]
pub struct DepositReceipt {
    pub rewards: Option<RewardsAccumulated>,
    pub deposited: StakeDeposited,
}

/// What a withdrawal hands back: the notices to send and the transfer to
/// make.
#[derive(Clone, Copy, Debug, PartialEq, Eq, Structural)]
pub struct WithdrawalReceipt {
    pub rewards: Option<RewardsAccumulated>,
    pub withdrawn: StakeWithdrawn,
    pub transfer: Transfer,
}

/// What a withdrawal of rewards hands back: the notice to send and the
/// transfer to make.
#[derive(Clone, Copy, Debug, PartialEq, Eq, Structural)]
pub struct RewardsReceipt {
    pub rewards: Option<RewardsAccumulated>,
    pub transfer: Transfer,
}

/// What a payment hands back: the record that was appended, the notices to
/// send and the transfer to make.
#[derive(Clone, Copy, Debug, PartialEq, Eq, Structural)]
pub struct PaymentReceipt {
    pub rewards: Option<RewardsAccumulated>,
    pub payment: StakePayment,
    pub paid: PaymentFromRewards,
    pub transfer: Transfer,
}

/// Whether `notice` is what an accrual on `before` at `now` announces: none
/// when nothing was added, else the user, the yield added and the rewards
/// after it.
pub open spec fn announces(
    notice: Option<RewardsAccumulated>,
    before: StakeConfigView,
    rate_bps: u64,
    now: u64,
) -> bool {
    if before.pending(rate_bps, now) == 0 {
        notice is None
    } else {
        &&& notice matches Some(n)
        &&& n.user == before.user
        &&& n.amount@ == before.pending(rate_bps, now)
        &&& n.total_rewards@ == before.accrue(rate_bps, now).accumulated_rewards
    }
}

/// The stake-to-pay ledger as a mathematical value.
pub struct StakeToPayView {
    /// The owner, who alone can configure the ledger.
    pub owner: Address,
    /// The billing engine this ledger works with, once it is set.
    pub billing_engine: Option<Address>,
    /// The stake position of every user that has one.
    pub accounts: Map<Address, StakeConfigView>,
    /// The payments made, oldest first.
    pub payments: Seq<StakePaymentView>,
    /// The principal of all positions together.
    pub total_staked: nat,
    /// The yield ever added to rewards.
    pub total_rewards: nat,
    /// The yearly rate, in basis points.
    pub apy_bps: u64,
}

impl StakeToPayView {
    /// What holds of every ledger: the rate is within its ceiling; each
    /// position is filed under its user; no principal exceeds the total
    /// staked; no position has more rewards, spent and unspent, than were
    /// ever added; the payments are numbered from one; no two payments name
    /// the same invoice.
    pub open spec fn valid(self) -> bool {
        &&& self.apy_bps <= MAX_APY_BPS
        &&& forall|user: Address| #[trigger]
            self.accounts.contains_key(user) ==> {
                &&& self.accounts[user].user == user
                &&& self.accounts[user].staked_amount <= self.total_staked
                &&& self.accounts[user].accumulated_rewards
                    + self.accounts[user].total_rewards_used <= self.total_rewards
            }
        &&& forall|i: int|
            0 <= i < self.payments.len() ==> (#[trigger] self.payments[i]).id@ == i + 1
        &&& forall|i: int, j: int|
            0 <= i < j < self.payments.len() ==> (#[trigger] self.payments[i]).invoice_id != (
            #[trigger] self.payments[j]).invoice_id
    }

    /// Whether the totals fit in 256 bits and the payments can still be
    /// numbered.
    pub open spec fn fits(self) -> bool {
        &&& self.total_staked <= max_amount()
        &&& self.total_rewards <= max_amount()
        &&& self.payments.len() <= u64::MAX
    }

    /// The position of `user`, or a fresh one for a user without one.
    pub open spec fn account_or_fresh(self, user: Address, now: u64) -> StakeConfigView {
        if self.accounts.contains_key(user) {
            self.accounts[user]
        } else {
            StakeConfigView::fresh(user, now)
        }
    }

    /// Whether the yield that is pending for `user` at `now` can be counted:
    /// whether the yield ever added, with it, fits in 256 bits.
    pub open spec fn accrual_fits(self, user: Address, now: u64) -> bool {
        self.total_rewards + self.account_or_fresh(user, now).pending(self.apy_bps, now)
            <= max_amount()
    }

    /// The rewards that `user` could spend at `now`: those accumulated and
    /// those pending. Zero for a user without a position.
    pub open spec fn available_rewards(self, user: Address, now: u64) -> nat {
        if self.accounts.contains_key(user) {
            self.accounts[user].accumulated_rewards + self.accounts[user].pending(
                self.apy_bps,
                now,
            )
        } else {
            0
        }
    }

    /// The ledger after the position `before` was brought up to `now` and
    /// then became `after`: the position is stored with the mark of `now`,
    /// the total staked follows the principal, and the yield that was pending
    /// counts as added.
    pub open spec fn settled(
        self,
        before: StakeConfigView,
        after: StakeConfigView,
        now: u64,
    ) -> StakeToPayView {
        StakeToPayView {
            accounts: self.accounts.insert(before.user, after.stamp(now)),
            total_staked: (self.total_staked - before.staked_amount + after.staked_amount) as nat,
            total_rewards: self.total_rewards + before.pending(self.apy_bps, now),
            ..self
        }
    }

    /// A deposit of `amount` by `caller` at `now`. A zero amount is refused.
    /// A caller without a position gets one.
    pub open spec fn deposit(self, caller: Address, amount: nat, now: u64) -> Result<
        StakeToPayView,
        Error,
    > {
        if amount == 0 {
            Err(Error::InvalidParameter)
        } else {
            let before = self.account_or_fresh(caller, now);
            let accrued = before.accrue(self.apy_bps, now);
            Ok(
                self.settled(
                    before,
                    StakeConfigView { staked_amount: accrued.staked_amount + amount, ..accrued },
                    now,
                ),
            )
        }
    }

    /// A withdrawal of `amount` by `caller` at `now`, out of rewards first
    /// and principal second.
    pub open spec fn withdraw(self, caller: Address, amount: nat, now: u64) -> Result<
        StakeToPayView,
        Error,
    > {
        if !self.accounts.contains_key(caller) {
            Err(Error::NotFound)
        } else {
            let before = self.accounts[caller];
            let accrued = before.accrue(self.apy_bps, now);
            if amount > accrued.holdings() {
                Err(Error::InsufficientFunds)
            } else {
                Ok(self.settled(before, accrued.allocate(amount), now))
            }
        }
    }

    /// A withdrawal of `amount` by `caller` at `now` out of the rewards
    /// alone.
    pub open spec fn withdraw_rewards(self, caller: Address, amount: nat, now: u64) -> Result<
        StakeToPayView,
        Error,
    > {
        if !self.accounts.contains_key(caller) {
            Err(Error::NotFound)
        } else {
            let before = self.accounts[caller];
            let accrued = before.accrue(self.apy_bps, now);
            if amount > accrued.accumulated_rewards {
                Err(Error::InsufficientFunds)
            } else {
                Ok(
                    self.settled(
                        before,
                        StakeConfigView {
                            accumulated_rewards: (accrued.accumulated_rewards - amount) as nat,
                            ..accrued
                        },
                        now,
                    ),
                )
            }
        }
    }

    /// The record of a payment of `amount` by `caller` for `invoice_id` at
    /// `now`, numbered after the payments made so far.
    pub open spec fn next_payment(
        self,
        caller: Address,
        invoice_id: Amount,
        amount: nat,
        now: u64,
    ) -> StakePaymentView {
        StakePaymentView {
            id: Amount::of(self.payments.len() + 1),
            user: caller,
            invoice_id,
            amount,
            paid_at: now,
        }
    }

    /// Whether a recorded payment names `invoice_id`.
    pub open spec fn is_invoice_paid(self, invoice_id: Amount) -> bool {
        exists|i: int| 0 <= i < self.payments.len() && (#[trigger] self.payments[i]).invoice_id
            == invoice_id
    }

    /// A payment of `amount` by `caller` for `invoice_id` at `now`, out of
    /// rewards first and principal second. Refused, in this order: an
    /// invoice that a recorded payment names already, whoever asks; a caller
    /// without a position; a position that does not allow payments; an
    /// amount that rewards and principal together do not cover.
    pub open spec fn pay_invoice_from_rewards(
        self,
        caller: Address,
        invoice_id: Amount,
        amount: nat,
        now: u64,
    ) -> Result<StakeToPayView, Error> {
        if self.is_invoice_paid(invoice_id) {
            Err(Error::InvalidState)
        } else if !self.accounts.contains_key(caller) {
            Err(Error::NotFound)
        } else if !self.accounts[caller].is_enabled {
            Err(Error::Unauthorized)
        } else {
            let before = self.accounts[caller];
            let accrued = before.accrue(self.apy_bps, now);
            if amount > accrued.holdings() {
                Err(Error::InsufficientFunds)
            } else {
                let after = StakeConfigView {
                    total_rewards_used: accrued.total_rewards_used + accrued.from_rewards(amount),
                    ..accrued.allocate(amount)
                };
                Ok(
                    StakeToPayView {
                        payments: self.payments.push(
                            self.next_payment(caller, invoice_id, amount, now),
                        ),
                        ..self.settled(before, after, now)
                    },
                )
            }
        }
    }

    /// Bringing the rewards of `user` up to `now`: the position is accrued
    /// and nothing else, so a position without principal, or one for which
    /// no time has elapsed, stays as it is, the time of its last update
    /// included.
    pub open spec fn update_rewards(self, user: Address, now: u64) -> Result<
        StakeToPayView,
        Error,
    > {
        if !self.accounts.contains_key(user) {
            Err(Error::NotFound)
        } else {
            let before = self.accounts[user];
            Ok(
                StakeToPayView {
                    accounts: self.accounts.insert(user, before.accrue(self.apy_bps, now)),
                    total_rewards: self.total_rewards + before.pending(self.apy_bps, now),
                    ..self
                },
            )
        }
    }

    /// Allowing or forbidding payments from the position of `caller`.
    pub open spec fn set_enabled(self, caller: Address, enabled: bool) -> Result<
        StakeToPayView,
        Error,
    > {
        if !self.accounts.contains_key(caller) {
            Err(Error::NotFound)
        } else {
            Ok(
                StakeToPayView {
                    accounts: self.accounts.insert(
                        caller,
                        StakeConfigView { is_enabled: enabled, ..self.accounts[caller] },
                    ),
                    ..self
                },
            )
        }
    }

    /// Naming the billing engine, which only the owner may do.
    pub open spec fn set_billing_engine(self, caller: Address, address: Address) -> Result<
        StakeToPayView,
        Error,
    > {
        if caller != self.owner {
            Err(Error::Unauthorized)
        } else {
            Ok(StakeToPayView { billing_engine: Some(address), ..self })
        }
    }

    /// Setting the yearly rate, which only the owner may do, and only up to
    /// the ceiling.
    pub open spec fn set_apy_bps(self, caller: Address, apy: u64) -> Result<
        StakeToPayView,
        Error,
    > {
        if caller != self.owner {
            Err(Error::Unauthorized)
        } else if apy > MAX_APY_BPS {
            Err(Error::InvalidParameter)
        } else {
            Ok(StakeToPayView { apy_bps: apy, ..self })
        }
    }
}

/// Whether `next` differs from `ledger` by a debit of `taken` from the
/// position of `caller`, brought up to `now`, and by nothing else that holds
/// value: rewards and principal of the caller are `taken` less than they
/// were; what left the principal left the total staked; the yield that was
/// pending counts as added; every other position is as it was.
pub open spec fn is_debit_of(
    ledger: StakeToPayView,
    next: StakeToPayView,
    caller: Address,
    taken: nat,
    now: u64,
) -> bool {
    let current = ledger.accounts[caller].accrue(ledger.apy_bps, now);
    &&& next.accounts.contains_key(caller)
    &&& next.accounts[caller].holdings() + taken == current.holdings()
    &&& next.accounts[caller].staked_amount <= current.staked_amount
    &&& next.accounts[caller].accumulated_rewards <= current.accumulated_rewards
    &&& next.total_staked + (current.staked_amount - next.accounts[caller].staked_amount)
        == ledger.total_staked
    &&& next.total_rewards == ledger.total_rewards + ledger.accounts[caller].pending(
        ledger.apy_bps,
        now,
    )
    &&& forall|other: Address|
        other != caller ==> (#[trigger] next.accounts.contains_key(other))
            == ledger.accounts.contains_key(other) && next.accounts[other]
            == ledger.accounts[other]
}

/// Conservation. A withdrawal, a withdrawal of rewards and a payment each
/// take from the caller's position exactly the amount asked for, and change
/// no other position.
pub proof fn lemma_debits_conserve(
    ledger: StakeToPayView,
    caller: Address,
    invoice_id: Amount,
    amount: nat,
    now: u64,
)
    requires
        ledger.valid(),
    ensures
        ledger.withdraw(caller, amount, now) matches Ok(next) ==> is_debit_of(
            ledger,
            next,
            caller,
            amount,
            now,
        ),
        ledger.withdraw_rewards(caller, amount, now) matches Ok(next) ==> is_debit_of(
            ledger,
            next,
            caller,
            amount,
            now,
        ),
        ledger.pay_invoice_from_rewards(caller, invoice_id, amount, now) matches Ok(next)
            ==> is_debit_of(ledger, next, caller, amount, now),
{
    if ledger.accounts.contains_key(caller) {
        lemma_accrue_adds_pending(ledger.accounts[caller], ledger.apy_bps, now);
    }
}

/// Conservation in a deposit: rewards and principal of the caller grow by
/// the amount deposited, the total staked grows by it too, and no other
/// position changes.
pub proof fn lemma_deposit_conserves(
    ledger: StakeToPayView,
    caller: Address,
    amount: nat,
    now: u64,
)
    requires
        ledger.valid(),
        ledger.deposit(caller, amount, now) is Ok,
    ensures
        ({
            let next = ledger.deposit(caller, amount, now)->Ok_0;
            let current = ledger.account_or_fresh(caller, now).accrue(ledger.apy_bps, now);
            &&& next.accounts.contains_key(caller)
            &&& next.accounts[caller].holdings() == current.holdings() + amount
            &&& next.accounts[caller].accumulated_rewards == current.accumulated_rewards
            &&& next.total_staked == ledger.total_staked + amount
            &&& forall|other: Address|
                other != caller ==> (#[trigger] next.accounts.contains_key(other))
                    == ledger.accounts.contains_key(other) && next.accounts[other]
                    == ledger.accounts[other]
        }),
{
    lemma_accrue_adds_pending(ledger.account_or_fresh(caller, now), ledger.apy_bps, now);
}

/// An invoice is paid out of a stake once. After a payment for an invoice
/// was recorded, every further payment for that invoice is refused with
/// `InvalidState`, whoever asks, for whatever amount and whenever; a refused
/// call changes nothing, so no second record is made and no second transfer
/// ordered. The payment that succeeded added one record.
pub proof fn lemma_pays_once(
    ledger: StakeToPayView,
    caller: Address,
    invoice_id: Amount,
    amount: nat,
    now: u64,
)
    ensures
        ledger.pay_invoice_from_rewards(caller, invoice_id, amount, now) matches Ok(next) ==> {
            &&& next.payments.len() == ledger.payments.len() + 1
            &&& next.is_invoice_paid(invoice_id)
            &&& forall|other: Address, sum: nat, later: u64| #[trigger]
                next.pay_invoice_from_rewards(other, invoice_id, sum, later) == Err::<
                    StakeToPayView,
                    Error,
                >(Error::InvalidState)
        },
{
    if ledger.pay_invoice_from_rewards(caller, invoice_id, amount, now) is Ok {
        let next = ledger.pay_invoice_from_rewards(caller, invoice_id, amount, now)->Ok_0;
        assert(next.payments[ledger.payments.len() as int].invoice_id == invoice_id);
    }
}

/// The numbers of the payments among `payments` that `user` made, in their
/// order.
pub open spec fn payment_ids_of(payments: Seq<StakePaymentView>, user: Address) -> Seq<Amount>
    decreases payments.len(),
{
    if payments.len() == 0 {
        Seq::empty()
    } else if payments.last().user == user {
        payment_ids_of(payments.drop_last(), user).push(payments.last().id)
    } else {
        payment_ids_of(payments.drop_last(), user)
    }
}

/// The principal of each position, in the order of the rows.
pub open spec fn staked_amounts(rows: Seq<StakeConfig>) -> Seq<nat> {
    Seq::new(rows.len(), |i: int| rows[i].staked_amount@)
}

/// The rewards of each position, spent and unspent, in the order of the
/// rows.
pub open spec fn reward_amounts(rows: Seq<StakeConfig>) -> Seq<nat> {
    Seq::new(rows.len(), |i: int| rows[i].accumulated_rewards@ + rows[i].total_rewards_used@)
}

/// The stake-to-pay ledger laid out in plain values, as it is kept between
/// calls.
pub struct StakeToPayState {
    pub owner: Address,
    pub billing_engine: Option<Address>,
    pub stake_configs: Vec<StakeConfig>,
    pub payments: Vec<StakePayment>,
    pub total_staked: Amount,
    pub total_rewards: Amount,
    pub apy_bps: u64,
}

impl StakeToPayState {
    /// Whether the values make up a ledger: no user has two positions, the
    /// total staked is the sum of the principals, the rewards of all
    /// positions, spent and unspent, add up to no more than was ever added,
    /// the rate is within its ceiling, the payments are numbered from one
    /// and no two of them name the same invoice.
    pub open spec fn valid(&self) -> bool {
        &&& distinct_keys(self.stake_configs@)
        &&& self.total_staked@ == total(staked_amounts(self.stake_configs@))
        &&& total(reward_amounts(self.stake_configs@)) <= self.total_rewards@
        &&& self.apy_bps <= MAX_APY_BPS
        &&& forall|i: int|
            0 <= i < self.payments@.len() ==> (#[trigger] self.payments@[i]).id@ == i + 1
        &&& forall|i: int, j: int|
            0 <= i < j < self.payments@.len() ==> (#[trigger] self.payments@[i]).invoice_id != (
            #[trigger] self.payments@[j]).invoice_id
    }

    /// The ledger that the values make up.
    pub open spec fn ledger(&self) -> StakeToPayView {
        StakeToPayView {
            owner: self.owner,
            billing_engine: self.billing_engine,
            accounts: mapping(self.stake_configs@),
            payments: views(self.payments@),
            total_staked: self.total_staked@,
            total_rewards: self.total_rewards@,
            apy_bps: self.apy_bps,
        }
    }
}

/// The stake-to-pay ledger.
pub struct StakeToPay {
    owner: Address,
    billing_engine: Option<Address>,
    stake_configs: Table<StakeConfig>,
    payments: Vec<StakePayment>,
    total_staked: Amount,
    total_rewards: Amount,
    apy_bps: u64,
}

impl View for StakeToPay {
    type V = StakeToPayView;

    closed spec fn view(&self) -> StakeToPayView {
        StakeToPayView {
            owner: self.owner,
            billing_engine: self.billing_engine,
            accounts: self.stake_configs@,
            payments: views(self.payments@),
            total_staked: self.total_staked@,
            total_rewards: self.total_rewards@,
            apy_bps: self.apy_bps,
        }
    }
}

impl StakeToPay {
    /// The invariant of the ledger: no user has two positions, the total
    /// staked is the sum of the principals, the rewards of all positions,
    /// spent and unspent, add up to no more than was ever added, the rate is
    /// within its ceiling, the payments are numbered from one and no two of
    /// them name the same invoice.
    pub closed spec fn wf(&self) -> bool {
        &&& self.stake_configs.wf()
        &&& self.total_staked@ == total(staked_amounts(self.stake_configs.rows()))
        &&& total(reward_amounts(self.stake_configs.rows())) <= self.total_rewards@
        &&& self.apy_bps <= MAX_APY_BPS
        &&& forall|i: int|
            0 <= i < self.payments@.len() ==> (#[trigger] self.payments@[i]).id@ == i + 1
        &&& forall|i: int, j: int|
            0 <= i < j < self.payments@.len() ==> (#[trigger] self.payments@[i]).invoice_id != (
            #[trigger] self.payments@[j]).invoice_id
    }

    /// A well-formed ledger has a valid view whose totals fit.
    pub proof fn lemma_valid(&self)
        requires
            self.wf(),
        ensures
            self@.valid(),
            self@.fits(),
    {
        let rows = self.stake_configs.rows();
        assert forall|user: Address| #[trigger] self@.accounts.contains_key(user) implies {
            &&& self@.accounts[user].user == user
            &&& self@.accounts[user].staked_amount <= self@.total_staked
            &&& self@.accounts[user].accumulated_rewards + self@.accounts[user].total_rewards_used
                <= self@.total_rewards
        } by {
            let i = place_of(rows, user)->Some_0;
            assert(holds_key(rows, user, i));
            lemma_total_bounds(staked_amounts(rows), i);
            lemma_total_bounds(reward_amounts(rows), i);
        }
        self.total_staked.lemma_bounded();
        self.total_rewards.lemma_bounded();
        assert(self.payments.len() <= usize::MAX);
    }

    /// The ledger that `state` makes up, or `None` when it makes up none.
    pub fn from_state(state: StakeToPayState) -> (r: Option<StakeToPay>)
        ensures
            match r {
                Some(ledger) => state.valid() && ledger.wf() && ledger@ == state.ledger(),
                None => !state.valid(),
            },
    {
        if state.apy_bps > MAX_APY_BPS {
            return None;
        }
        let mut i: usize = 0;
        while i < state.payments.len()
            invariant
                i <= state.payments.len(),
                forall|j: int| 0 <= j < i ==> (#[trigger] state.payments@[j]).id@ == j + 1,
                forall|a: int, b: int|
                    0 <= a < b < i ==> (#[trigger] state.payments@[a]).invoice_id != (
                    #[trigger] state.payments@[b]).invoice_id,
            decreases state.payments.len() - i,
        {
            proof {
                state.payments@[i as int].id.lemma_of((i + 1) as u64);
            }
            if state.payments[i].id != Amount::from_u64((i as u64) + 1) {
                return None;
            }
            let mut j: usize = 0;
            while j < i
                invariant
                    j <= i,
                    i < state.payments.len(),
                    forall|b: int|
                        0 <= b < j ==> (#[trigger] state.payments@[b]).invoice_id
                            != state.payments@[i as int].invoice_id,
                decreases i - j,
            {
                if state.payments[j].invoice_id == state.payments[i].invoice_id {
                    return None;
                }
                j += 1;
            }
            i += 1;
        }
        let ghost staked = staked_amounts(state.stake_configs@);
        let ghost rewards = reward_amounts(state.stake_configs@);
        let mut staked_sum = Amount::zero();
        let mut rewards_sum = Amount::zero();
        let mut k: usize = 0;
        proof {
            state.total_staked.lemma_bounded();
            state.total_rewards.lemma_bounded();
            assert(staked.take(0) =~= Seq::<nat>::empty());
            assert(rewards.take(0) =~= Seq::<nat>::empty());
        }
        while k < state.stake_configs.len()
            invariant
                k <= state.stake_configs.len(),
                staked == staked_amounts(state.stake_configs@),
                rewards == reward_amounts(state.stake_configs@),
                staked_sum@ == total(staked.take(k as int)),
                rewards_sum@ == total(rewards.take(k as int)),
                state.total_staked@ <= max_amount(),
                state.total_rewards@ <= max_amount(),
            decreases state.stake_configs.len() - k,
        {
            proof {
                lemma_total_take(staked, k as int);
                lemma_total_take(rewards, k as int);
            }
            let config = &state.stake_configs[k];
            staked_sum = match staked_sum.checked_add(config.staked_amount) {
                Some(sum) => sum,
                None => {
                    return None;
                },
            };
            let earned = match config.accumulated_rewards.checked_add(config.total_rewards_used) {
                Some(sum) => sum,
                None => {
                    return None;
                },
            };
            rewards_sum = match rewards_sum.checked_add(earned) {
                Some(sum) => sum,
                None => {
                    return None;
                },
            };
            k += 1;
        }
        proof {
            assert(staked.take(k as int) =~= staked);
            assert(rewards.take(k as int) =~= rewards);
            if staked_sum@ == state.total_staked@ {
                staked_sum.lemma_view_injective(state.total_staked);
            }
        }
        if staked_sum != state.total_staked || !rewards_sum.le(&state.total_rewards) {
            return None;
        }
        let stake_configs = match Table::from_rows(state.stake_configs) {
            Some(table) => table,
            None => {
                return None;
            },
        };
        Some(
            StakeToPay {
                owner: state.owner,
                billing_engine: state.billing_engine,
                stake_configs,
                payments: state.payments,
                total_staked: state.total_staked,
                total_rewards: state.total_rewards,
                apy_bps: state.apy_bps,
            },
        )
    }

    /// The ledger laid out in plain values.
    pub fn into_state(self) -> (state: StakeToPayState)
        requires
            self.wf(),
        ensures
            state.valid(),
            state.ledger() == self@,
    {
        StakeToPayState {
            owner: self.owner,
            billing_engine: self.billing_engine,
            stake_configs: self.stake_configs.into_rows(),
            payments: self.payments,
            total_staked: self.total_staked,
            total_rewards: self.total_rewards,
            apy_bps: self.apy_bps,
        }
    }

    /// The positions in the order in which their users first deposited.
    pub closed spec fn positions(&self) -> Seq<StakeConfig> {
        self.stake_configs.rows()
    }

    /// Value is neither made nor lost in the books: in a well-formed ledger
    /// each user has one position, the total staked is the sum of the
    /// principals, and the rewards of all positions, spent and unspent, add
    /// up to no more than the yield ever added.
    pub proof fn lemma_totals(&self)
        requires
            self.wf(),
        ensures
            distinct_keys(self.positions()),
            self@.accounts == mapping(self.positions()),
            self@.total_staked == total(staked_amounts(self.positions())),
            total(reward_amounts(self.positions())) <= self@.total_rewards,
    {
    }

    /// A new ledger, owned by `caller`: no positions, no payments, the
    /// default rate.
    pub fn init(caller: Address) -> (ledger: StakeToPay)
        ensures
            ledger.wf(),
            ledger@ == (StakeToPayView {
                owner: caller,
                billing_engine: None,
                accounts: Map::empty(),
                payments: Seq::empty(),
                total_staked: 0,
                total_rewards: 0,
                apy_bps: DEFAULT_APY_BPS,
            }),
    {
        let ledger = StakeToPay {
            owner: caller,
            billing_engine: None,
            stake_configs: Table::new(),
            payments: Vec::new(),
            total_staked: Amount::zero(),
            total_rewards: Amount::zero(),
            apy_bps: DEFAULT_APY_BPS,
        };
        assert(staked_amounts(ledger.stake_configs.rows()) =~= Seq::<nat>::empty());
        assert(reward_amounts(ledger.stake_configs.rows()) =~= Seq::<nat>::empty());
        assert(views(ledger.payments@) =~= Seq::<StakePaymentView>::empty());
        ledger
    }

    /// The place and the position of `user`, if there is one.
    fn locate(&self, user: Address) -> (r: Option<(usize, StakeConfig)>)
        requires
            self.wf(),
        ensures
            match r {
                Some((i, account)) => {
                    &&& i < self.stake_configs.rows().len()
                    &&& self.stake_configs.rows()[i as int] == account
                    &&& account.user == user
                    &&& self@.accounts.contains_key(user)
                    &&& self@.accounts[user] == account@
                    &&& account@.staked_amount <= self@.total_staked
                    &&& account@.accumulated_rewards + account@.total_rewards_used
                        <= self@.total_rewards
                },
                None => !self@.accounts.contains_key(user),
            },
    {
        proof {
            self.lemma_valid();
        }
        match self.stake_configs.find(&user) {
            Some(i) => Some((i, *self.stake_configs.row(i))),
            None => None,
        }
    }

    /// Brings `account` up to `now` at the ledger's rate. Returns the yield
    /// added and the notice of it, if any was added.
    fn accumulate_rewards(&self, account: &mut StakeConfig, now: u64) -> (r: (
        Amount,
        Option<RewardsAccumulated>,
    ))
        requires
            old(account)@.accumulated_rewards + old(account)@.pending(self.apy_bps, now)
                <= max_amount(),
        ensures
            final(account)@ == old(account)@.accrue(self.apy_bps, now),
            r.0@ == old(account)@.pending(self.apy_bps, now),
            announces(r.1, old(account)@, self.apy_bps, now),
    {
        let added = account.accrue(self.apy_bps, now);
        let notice = if added.is_zero() {
            None
        } else {
            Some(
                RewardsAccumulated {
                    user: account.user,
                    amount: added,
                    total_rewards: account.accumulated_rewards,
                },
            )
        };
        (added, notice)
    }

    /// Deposits `amount` for `caller` at `now`. A caller without a position
    /// gets one. The position is first brought up to `now`. A zero amount is
    /// refused with `InvalidParameter`.
    pub fn deposit(&mut self, caller: Address, amount: Amount, now: u64) -> (r: Result<
        DepositReceipt,
        Error,
    >)
        requires
            old(self).wf(),
            old(self)@.deposit(caller, amount@, now) is Ok ==> old(self)@.accrual_fits(caller, now)
                && old(self)@.total_staked + amount@ <= max_amount(),
        ensures
            final(self).wf(),
            match r {
                Ok(receipt) => {
                    &&& old(self)@.deposit(caller, amount@, now) == Ok::<StakeToPayView, Error>(
                        final(self)@,
                    )
                    &&& announces(
                        receipt.rewards,
                        old(self)@.account_or_fresh(caller, now),
                        old(self)@.apy_bps,
                        now,
                    )
                    &&& receipt.deposited.user == caller
                    &&& receipt.deposited.amount == amount
                    &&& receipt.deposited.total_staked@
                        == final(self)@.accounts[caller].staked_amount
                },
                Err(e) => {
                    &&& old(self)@.deposit(caller, amount@, now) == Err::<StakeToPayView, Error>(e)
                    &&& final(self)@ == old(self)@
                },
            },
    {
        if amount.is_zero() {
            return Err(Error::InvalidParameter);
        }
        let (place, mut account) = match self.locate(caller) {
            Some((i, account)) => (Some(i), account),
            None => (None, StakeConfig::new(caller, now)),
        };
        proof {
            self.lemma_valid();
            lemma_accrue_adds_pending(account@, self.apy_bps, now);
        }
        let (added, notice) = self.accumulate_rewards(&mut account, now);
        account.staked_amount = account.staked_amount.checked_add(amount).unwrap();
        account.stamp(now);
        self.store(place, account, added);
        Ok(
            DepositReceipt {
                rewards: notice,
                deposited: StakeDeposited {
                    user: caller,
                    amount,
                    total_staked: account.staked_amount,
                },
            },
        )
    }

    /// Withdraws `amount` for `caller` at `now`, out of the rewards as far as
    /// they go and out of the principal for the rest. The position is first
    /// brought up to `now`. Fails with `NotFound` when the caller has no
    /// position and with `InsufficientFunds` when rewards and principal
    /// together do not cover the amount.
    pub fn withdraw(&mut self, caller: Address, amount: Amount, now: u64) -> (r: Result<
        WithdrawalReceipt,
        Error,
    >)
        requires
            old(self).wf(),
            old(self)@.withdraw(caller, amount@, now) is Ok ==> old(self)@.accrual_fits(
                caller,
                now,
            ),
        ensures
            final(self).wf(),
            match r {
                Ok(receipt) => {
                    &&& old(self)@.withdraw(caller, amount@, now) == Ok::<StakeToPayView, Error>(
                        final(self)@,
                    )
                    &&& announces(
                        receipt.rewards,
                        old(self)@.accounts[caller],
                        old(self)@.apy_bps,
                        now,
                    )
                    &&& receipt.withdrawn.user == caller
                    &&& receipt.withdrawn.amount == amount
                    &&& receipt.withdrawn.remaining@ == final(self)@.accounts[caller].staked_amount
                    &&& receipt.transfer == (Transfer { to: caller, amount })
                },
                Err(e) => {
                    &&& old(self)@.withdraw(caller, amount@, now) == Err::<StakeToPayView, Error>(
                        e,
                    )
                    &&& final(self)@ == old(self)@
                },
            },
    {
        let (place, mut account) = match self.locate(caller) {
            Some(found) => found,
            None => {
                return Err(Error::NotFound);
            },
        };
        proof {
            self.lemma_valid();
            amount.lemma_bounded();
            lemma_accrue_adds_pending(account@, self.apy_bps, now);
        }
        let (added, notice) = self.accumulate_rewards(&mut account, now);
        match account.allocate(amount) {
            Ok(_) => {},
            Err(e) => {
                return Err(e);
            },
        }
        account.stamp(now);
        self.store(Some(place), account, added);
        Ok(
            WithdrawalReceipt {
                rewards: notice,
                withdrawn: StakeWithdrawn {
                    user: caller,
                    amount,
                    remaining: account.staked_amount,
                },
                transfer: Transfer { to: caller, amount },
            },
        )
    }

    /// Withdraws `amount` for `caller` at `now` out of the rewards alone.
    /// The position is first brought up to `now`. Fails with `NotFound` when
    /// the caller has no position and with `InsufficientFunds` when the
    /// rewards do not cover the amount.
    pub fn withdraw_rewards(&mut self, caller: Address, amount: Amount, now: u64) -> (r: Result<
        RewardsReceipt,
        Error,
    >)
        requires
            old(self).wf(),
            old(self)@.withdraw_rewards(caller, amount@, now) is Ok ==> old(self)@.accrual_fits(
                caller,
                now,
            ),
        ensures
            final(self).wf(),
            match r {
                Ok(receipt) => {
                    &&& old(self)@.withdraw_rewards(caller, amount@, now) == Ok::<
                        StakeToPayView,
                        Error,
                    >(final(self)@)
                    &&& announces(
                        receipt.rewards,
                        old(self)@.accounts[caller],
                        old(self)@.apy_bps,
                        now,
                    )
                    &&& receipt.transfer == (Transfer { to: caller, amount })
                },
                Err(e) => {
                    &&& old(self)@.withdraw_rewards(caller, amount@, now) == Err::<
                        StakeToPayView,
                        Error,
                    >(e)
                    &&& final(self)@ == old(self)@
                },
            },
    {
        let (place, mut account) = match self.locate(caller) {
            Some(found) => found,
            None => {
                return Err(Error::NotFound);
            },
        };
        proof {
            self.lemma_valid();
            amount.lemma_bounded();
            lemma_accrue_adds_pending(account@, self.apy_bps, now);
        }
        let (added, notice) = self.accumulate_rewards(&mut account, now);
        account.accumulated_rewards = match account.accumulated_rewards.checked_sub(amount) {
            Some(left) => left,
            None => {
                return Err(Error::InsufficientFunds);
            },
        };
        account.stamp(now);
        self.store(Some(place), account, added);
        Ok(RewardsReceipt { rewards: notice, transfer: Transfer { to: caller, amount } })
    }

    /// Allows payments from the position of `caller`. Fails with `NotFound`
    /// when the caller has no position.
    pub fn enable_stake_to_pay(&mut self, caller: Address) -> (r: Result<StakeToPayEnabled, Error>)
        requires
            old(self).wf(),
        ensures
            final(self).wf(),
            match r {
                Ok(notice) => {
                    &&& old(self)@.set_enabled(caller, true) == Ok::<StakeToPayView, Error>(
                        final(self)@,
                    )
                    &&& notice.user == caller
                },
                Err(e) => {
                    &&& old(self)@.set_enabled(caller, true) == Err::<StakeToPayView, Error>(e)
                    &&& final(self)@ == old(self)@
                },
            },
    {
        let (place, mut account) = match self.locate(caller) {
            Some(found) => found,
            None => {
                return Err(Error::NotFound);
            },
        };
        proof {
            self.lemma_valid();
        }
        account.is_enabled = true;
        self.store(Some(place), account, Amount::zero());
        Ok(StakeToPayEnabled { user: caller })
    }

    /// Forbids payments from the position of `caller`. Fails with `NotFound`
    /// when the caller has no position.
    pub fn disable_stake_to_pay(&mut self, caller: Address) -> (r: Result<
        StakeToPayDisabled,
        Error,
    >)
        requires
            old(self).wf(),
        ensures
            final(self).wf(),
            match r {
                Ok(notice) => {
                    &&& old(self)@.set_enabled(caller, false) == Ok::<StakeToPayView, Error>(
                        final(self)@,
                    )
                    &&& notice.user == caller
                },
                Err(e) => {
                    &&& old(self)@.set_enabled(caller, false) == Err::<StakeToPayView, Error>(e)
                    &&& final(self)@ == old(self)@
                },
            },
    {
        let (place, mut account) = match self.locate(caller) {
            Some(found) => found,
            None => {
                return Err(Error::NotFound);
            },
        };
        proof {
            self.lemma_valid();
        }
        account.is_enabled = false;
        self.store(Some(place), account, Amount::zero());
        Ok(StakeToPayDisabled { user: caller })
    }

    /// Pays `amount` for `invoice_id` out of the position of `caller` at
    /// `now`: out of the rewards as far as they go, out of the principal for
    /// the rest. The position is first brought up to `now`. The payment is
    /// recorded and `merchant` is to receive the amount. An invoice is paid
    /// once: fails with `InvalidState` when a recorded payment names the
    /// invoice already, whoever asks. Otherwise fails with `NotFound` when
    /// the caller has no position, with `Unauthorized` when the position
    /// does not allow payments, and with `InsufficientFunds` when rewards
    /// and principal together do not cover the amount.
    pub fn pay_invoice_from_rewards(
        &mut self,
        caller: Address,
        invoice_id: Amount,
        amount: Amount,
        merchant: Address,
        now: u64,
    ) -> (r: Result<PaymentReceipt, Error>)
        requires
            old(self).wf(),
            old(self)@.pay_invoice_from_rewards(caller, invoice_id, amount@, now) is Ok
                ==> old(self)@.accrual_fits(caller, now) && old(self)@.payments.len() < u64::MAX,
        ensures
            final(self).wf(),
            match r {
                Ok(receipt) => {
                    &&& old(self)@.pay_invoice_from_rewards(caller, invoice_id, amount@, now)
                        == Ok::<StakeToPayView, Error>(final(self)@)
                    &&& announces(
                        receipt.rewards,
                        old(self)@.accounts[caller],
                        old(self)@.apy_bps,
                        now,
                    )
                    &&& receipt.payment@ == old(self)@.next_payment(
                        caller,
                        invoice_id,
                        amount@,
                        now,
                    )
                    &&& receipt.paid.user == caller
                    &&& receipt.paid.invoice_id == invoice_id
                    &&& receipt.paid.amount == amount
                    &&& receipt.paid.remaining_rewards@
                        == final(self)@.accounts[caller].accumulated_rewards
                    &&& receipt.transfer == (Transfer { to: merchant, amount })
                },
                Err(e) => {
                    &&& old(self)@.pay_invoice_from_rewards(caller, invoice_id, amount@, now)
                        == Err::<StakeToPayView, Error>(e)
                    &&& final(self)@ == old(self)@
                },
            },
    {
        if self.is_invoice_paid(invoice_id) {
            return Err(Error::InvalidState);
        }
        let (place, mut account) = match self.locate(caller) {
            Some(found) => found,
            None => {
                return Err(Error::NotFound);
            },
        };
        if !account.is_enabled {
            return Err(Error::Unauthorized);
        }
        proof {
            self.lemma_valid();
            amount.lemma_bounded();
            lemma_accrue_adds_pending(account@, self.apy_bps, now);
        }
        let (added, notice) = self.accumulate_rewards(&mut account, now);
        let from_rewards = match account.allocate(amount) {
            Ok(parts) => parts.0,
            Err(e) => {
                return Err(e);
            },
        };
        account.total_rewards_used = account.total_rewards_used.checked_add(from_rewards).unwrap();
        account.stamp(now);
        self.store(Some(place), account, added);
        let ghost recorded = self.payments@;
        assert(views(recorded).len() == recorded.len());
        assert forall|j: int| 0 <= j < recorded.len() implies (#[trigger] recorded[j]).invoice_id
            != invoice_id by {
            assert(views(recorded)[j].invoice_id == recorded[j].invoice_id);
            assert(old(self)@.payments[j] == views(recorded)[j]);
        }
        let id = Amount::from_u64((self.payments.len() as u64) + 1);
        let payment = StakePayment { id, user: caller, invoice_id, amount, paid_at: now };
        self.payments.push(payment);
        proof {
            assert(views(recorded.push(payment)) =~= views(recorded).push(payment@));
        }
        Ok(
            PaymentReceipt {
                rewards: notice,
                payment,
                paid: PaymentFromRewards {
                    user: caller,
                    invoice_id,
                    amount,
                    remaining_rewards: account.accumulated_rewards,
                },
                transfer: Transfer { to: merchant, amount },
            },
        )
    }

    /// Brings the rewards of `user` up to `now`. Anyone may ask for it. A
    /// position without principal, or one for which no time has elapsed, is
    /// left as it is, the time of its last update included. Fails with
    /// `NotFound` when the user has no position.
    pub fn update_rewards(&mut self, user: Address, now: u64) -> (r: Result<
        Option<RewardsAccumulated>,
        Error,
    >)
        requires
            old(self).wf(),
            old(self)@.update_rewards(user, now) is Ok ==> old(self)@.accrual_fits(user, now),
        ensures
            final(self).wf(),
            match r {
                Ok(notice) => {
                    &&& old(self)@.update_rewards(user, now) == Ok::<StakeToPayView, Error>(
                        final(self)@,
                    )
                    &&& announces(notice, old(self)@.accounts[user], old(self)@.apy_bps, now)
                },
                Err(e) => {
                    &&& old(self)@.update_rewards(user, now) == Err::<StakeToPayView, Error>(e)
                    &&& final(self)@ == old(self)@
                },
            },
    {
        let (place, mut account) = match self.locate(user) {
            Some(found) => found,
            None => {
                return Err(Error::NotFound);
            },
        };
        proof {
            self.lemma_valid();
            lemma_accrue_adds_pending(account@, self.apy_bps, now);
        }
        let (added, notice) = self.accumulate_rewards(&mut account, now);
        self.store(Some(place), account, added);
        Ok(notice)
    }

    /// The position of `user`, if there is one.
    pub fn get_stake_config(&self, user: Address) -> (r: Option<StakeConfig>)
        requires
            self.wf(),
        ensures
            match r {
                Some(config) => self@.accounts.contains_key(user) && config@
                    == self@.accounts[user],
                None => !self@.accounts.contains_key(user),
            },
    {
        match self.locate(user) {
            Some(found) => Some(found.1),
            None => None,
        }
    }

    /// Whether `account`, brought up to `now`, covers `amount`: with its
    /// rewards and principal together, or with its rewards alone.
    fn covers(&self, account: &StakeConfig, amount: Amount, now: u64, with_principal: bool) -> (r:
        bool)
        ensures
            r == (amount@ <= if with_principal {
                account@.accrue(self.apy_bps, now).holdings()
            } else {
                account@.accrue(self.apy_bps, now).accumulated_rewards
            }),
    {
        proof {
            lemma_accrue_adds_pending(account@, self.apy_bps, now);
            amount.lemma_bounded();
        }
        let pending = match account.pending_rewards(self.apy_bps, now) {
            Some(pending) => pending,
            None => {
                return true;
            },
        };
        let rewards = match account.accumulated_rewards.checked_add(pending) {
            Some(rewards) => rewards,
            None => {
                return true;
            },
        };
        if !with_principal {
            return amount.le(&rewards);
        }
        match rewards.checked_add(account.staked_amount) {
            Some(holdings) => amount.le(&holdings),
            None => true,
        }
    }

    /// Whether a deposit of `amount` by `caller` at `now` stays in range:
    /// true unless the deposit would be accepted and a total would leave
    /// 256 bits with it.
    pub fn deposit_in_range(&self, caller: Address, amount: Amount, now: u64) -> (r: bool)
        requires
            self.wf(),
        ensures
            r == (self@.deposit(caller, amount@, now) is Ok ==> self@.accrual_fits(caller, now)
                && self@.total_staked + amount@ <= max_amount()),
    {
        if amount.is_zero() {
            return true;
        }
        self.accrual_fits(caller, now) && self.total_staked.checked_add(amount).is_some()
    }

    /// Whether a withdrawal of `amount` by `caller` at `now` stays in
    /// range: true unless the withdrawal would be accepted and the yield
    /// ever added would leave 256 bits with the yield that is pending.
    pub fn withdraw_in_range(&self, caller: Address, amount: Amount, now: u64) -> (r: bool)
        requires
            self.wf(),
        ensures
            r == (self@.withdraw(caller, amount@, now) is Ok ==> self@.accrual_fits(caller, now)),
    {
        if self.accrual_fits(caller, now) {
            return true;
        }
        match self.locate(caller) {
            Some(found) => !self.covers(&found.1, amount, now, true),
            None => true,
        }
    }

    /// Whether a withdrawal of `amount` of the rewards of `caller` at `now`
    /// stays in range: true unless the withdrawal would be accepted and the
    /// yield ever added would leave 256 bits with the yield that is
    /// pending.
    pub fn withdraw_rewards_in_range(&self, caller: Address, amount: Amount, now: u64) -> (r: bool)
        requires
            self.wf(),
        ensures
            r == (self@.withdraw_rewards(caller, amount@, now) is Ok ==> self@.accrual_fits(
                caller,
                now,
            )),
    {
        if self.accrual_fits(caller, now) {
            return true;
        }
        match self.locate(caller) {
            Some(found) => !self.covers(&found.1, amount, now, false),
            None => true,
        }
    }

    /// Whether a payment of `amount` by `caller` for `invoice_id` at `now`
    /// stays in range: true unless the payment would be accepted and either
    /// the yield ever added would leave 256 bits with the yield that is
    /// pending, or the payments could no longer be numbered.
    pub fn payment_in_range(&self, caller: Address, invoice_id: Amount, amount: Amount, now: u64) -> (r:
        bool)
        requires
            self.wf(),
        ensures
            r == (self@.pay_invoice_from_rewards(caller, invoice_id, amount@, now) is Ok
                ==> self@.accrual_fits(caller, now) && self@.payments.len() < u64::MAX),
    {
        if self.accrual_fits(caller, now) && self.total_payments() < u64::MAX {
            return true;
        }
        if self.is_invoice_paid(invoice_id) {
            return true;
        }
        match self.locate(caller) {
            Some(found) => !found.1.is_enabled || !self.covers(&found.1, amount, now, true),
            None => true,
        }
    }

    /// Whether the yield that is pending for `user` at `now` can be counted:
    /// whether the yield ever added, with it, fits in 256 bits.
    pub fn accrual_fits(&self, user: Address, now: u64) -> (r: bool)
        requires
            self.wf(),
        ensures
            r == self@.accrual_fits(user, now),
    {
        match self.locate(user) {
            Some(found) => match found.1.pending_rewards(self.apy_bps, now) {
                Some(pending) => match self.total_rewards.checked_add(pending) {
                    Some(_) => true,
                    None => false,
                },
                None => false,
            },
            None => {
                proof {
                    lemma_yield_zero(
                        0,
                        self.apy_bps as nat,
                        StakeConfigView::fresh(user, now).elapsed(now),
                    );
                    self.total_rewards.lemma_bounded();
                }
                true
            },
        }
    }

    /// The rewards that `user` could spend at `now`, or `None` when they do
    /// not fit in 256 bits.
    pub fn checked_available_rewards(&self, user: Address, now: u64) -> (r: Option<Amount>)
        requires
            self.wf(),
        ensures
            match r {
                Some(rewards) => rewards@ == self@.available_rewards(user, now),
                None => self@.available_rewards(user, now) > max_amount(),
            },
    {
        match self.locate(user) {
            Some(found) => match found.1.pending_rewards(self.apy_bps, now) {
                Some(pending) => found.1.accumulated_rewards.checked_add(pending),
                None => None,
            },
            None => Some(Amount::zero()),
        }
    }

    /// The rewards that `user` could spend at `now`: those accumulated and
    /// those pending since the last update. Zero for a user without a
    /// position.
    pub fn get_available_rewards(&self, user: Address, now: u64) -> (r: Amount)
        requires
            self.wf(),
            self@.available_rewards(user, now) <= max_amount(),
        ensures
            r@ == self@.available_rewards(user, now),
    {
        match self.locate(user) {
            Some(found) => {
                let pending = found.1.pending_rewards(self.apy_bps, now).unwrap();
                found.1.accumulated_rewards.checked_add(pending).unwrap()
            },
            None => Amount::zero(),
        }
    }

    /// The payment with the given number, if there is one.
    pub fn get_payment(&self, payment_id: Amount) -> (r: Option<StakePayment>)
        requires
            self.wf(),
        ensures
            match r {
                Some(payment) => 1 <= payment_id@ <= self@.payments.len() && payment@
                    == self@.payments[payment_id@ - 1] && payment.id == payment_id,
                None => payment_id@ == 0 || payment_id@ > self@.payments.len(),
            },
    {
        assert(self.payments.len() <= usize::MAX);
        let number = match payment_id.to_u64() {
            Some(number) => number,
            None => {
                return None;
            },
        };
        if number == 0 || number > self.payments.len() as u64 {
            return None;
        }
        let place: usize = (number - 1) as usize;
        proof {
            self.payments@[place as int].id.lemma_view_injective(payment_id);
        }
        Some(self.payments[place])
    }

    /// The numbers of the payments that `user` has made, oldest first.
    pub fn get_user_payments(&self, user: Address) -> (ids: Vec<Amount>)
        requires
            self.wf(),
        ensures
            ids@ == payment_ids_of(self@.payments, user),
    {
        let mut ids: Vec<Amount> = Vec::new();
        let mut i: usize = 0;
        while i < self.payments.len()
            invariant
                i <= self.payments.len(),
                ids@ == payment_ids_of(views(self.payments@).take(i as int), user),
            decreases self.payments.len() - i,
        {
            proof {
                let seen = views(self.payments@).take(i as int + 1);
                assert(seen.drop_last() =~= views(self.payments@).take(i as int));
            }
            if self.payments[i].user == user {
                ids.push(self.payments[i].id);
            }
            i += 1;
        }
        proof {
            assert(views(self.payments@).take(i as int) =~= views(self.payments@));
        }
        ids
    }

    /// Whether a recorded payment names `invoice_id`.
    pub fn is_invoice_paid(&self, invoice_id: Amount) -> (r: bool)
        ensures
            r == self@.is_invoice_paid(invoice_id),
    {
        assert(views(self.payments@).len() == self.payments@.len());
        let mut i: usize = 0;
        while i < self.payments.len()
            invariant
                i <= self.payments.len(),
                forall|j: int|
                    0 <= j < i ==> (#[trigger] views(self.payments@)[j]).invoice_id != invoice_id,
            decreases self.payments.len() - i,
        {
            if self.payments[i].invoice_id == invoice_id {
                assert(views(self.payments@)[i as int].invoice_id == invoice_id);
                return true;
            }
            i += 1;
        }
        false
    }

    /// The number of payments made.
    pub fn total_payments(&self) -> (n: u64)
        ensures
            n == self@.payments.len(),
    {
        assert(views(self.payments@).len() == self.payments@.len());
        self.payments.len() as u64
    }

    /// The principal of all positions together.
    pub fn get_total_staked(&self) -> (r: Amount)
        ensures
            r@ == self@.total_staked,
    {
        self.total_staked
    }

    /// The yield ever added to rewards.
    pub fn get_total_rewards(&self) -> (r: Amount)
        ensures
            r@ == self@.total_rewards,
    {
        self.total_rewards
    }

    /// The yearly rate, in basis points.
    pub fn get_apy_bps(&self) -> (r: u64)
        ensures
            r == self@.apy_bps,
    {
        self.apy_bps
    }

    /// Names the billing engine. Only the owner may: anyone else is refused
    /// with `Unauthorized`.
    pub fn set_billing_engine(&mut self, caller: Address, address: Address) -> (r: Result<
        (),
        Error,
    >)
        requires
            old(self).wf(),
        ensures
            final(self).wf(),
            match r {
                Ok(_) => old(self)@.set_billing_engine(caller, address) == Ok::<
                    StakeToPayView,
                    Error,
                >(final(self)@),
                Err(e) => {
                    &&& old(self)@.set_billing_engine(caller, address) == Err::<
                        StakeToPayView,
                        Error,
                    >(e)
                    &&& final(self)@ == old(self)@
                },
            },
    {
        if caller != self.owner {
            return Err(Error::Unauthorized);
        }
        self.billing_engine = Some(address);
        Ok(())
    }

    /// Sets the yearly rate. Only the owner may: anyone else is refused with
    /// `Unauthorized`. A rate above the ceiling is refused with
    /// `InvalidParameter`.
    pub fn set_apy_bps(&mut self, caller: Address, apy: u64) -> (r: Result<(), Error>)
        requires
            old(self).wf(),
        ensures
            final(self).wf(),
            match r {
                Ok(_) => old(self)@.set_apy_bps(caller, apy) == Ok::<StakeToPayView, Error>(
                    final(self)@,
                ),
                Err(e) => {
                    &&& old(self)@.set_apy_bps(caller, apy) == Err::<StakeToPayView, Error>(e)
                    &&& final(self)@ == old(self)@
                },
            },
    {
        if caller != self.owner {
            return Err(Error::Unauthorized);
        }
        if apy > MAX_APY_BPS {
            return Err(Error::InvalidParameter);
        }
        self.apy_bps = apy;
        Ok(())
    }

    /// Stores `account` at `place`, or as a new position when there is no
    /// place, counts `added` as yield added, and lets the total staked follow
    /// the principal.
    fn store(&mut self, place: Option<usize>, account: StakeConfig, added: Amount)
        requires
            old(self).wf(),
            match place {
                Some(i) => i < old(self).stake_configs.rows().len()
                    && old(self).stake_configs.rows()[i as int].user == account.user,
                None => !old(self)@.accounts.contains_key(account.user),
            },
            old(self)@.total_staked - old(self)@.account_or_fresh(account.user, 0).staked_amount
                + account@.staked_amount <= max_amount(),
            old(self)@.total_rewards + added@ <= max_amount(),
            account@.accumulated_rewards + account@.total_rewards_used
                <= old(self)@.account_or_fresh(account.user, 0).accumulated_rewards
                + old(self)@.account_or_fresh(account.user, 0).total_rewards_used + added@,
        ensures
            final(self).wf(),
            final(self)@ == (StakeToPayView {
                accounts: old(self)@.accounts.insert(account.user, account@),
                total_staked: (old(self)@.total_staked - old(self)@.account_or_fresh(
                    account.user,
                    0,
                ).staked_amount + account@.staked_amount) as nat,
                total_rewards: old(self)@.total_rewards + added@,
                ..old(self)@
            }),
    {
        let ghost rows = self.stake_configs.rows();
        match place {
            Some(i) => {
                let prior = *self.stake_configs.row(i);
                proof {
                    assert(holds_key(rows, account.user, i as int));
                    lemma_place_of(rows, account.user, i as int);
                    lemma_total_bounds(staked_amounts(rows), i as int);
                    lemma_total_update(staked_amounts(rows), i as int, account.staked_amount@);
                    lemma_total_update(
                        reward_amounts(rows),
                        i as int,
                        account.accumulated_rewards@ + account.total_rewards_used@,
                    );
                    assert(staked_amounts(rows.update(i as int, account)) =~= staked_amounts(
                        rows,
                    ).update(i as int, account.staked_amount@));
                    assert(reward_amounts(rows.update(i as int, account)) =~= reward_amounts(
                        rows,
                    ).update(
                        i as int,
                        account.accumulated_rewards@ + account.total_rewards_used@,
                    ));
                }
                let without = self.total_staked.checked_sub(prior.staked_amount).unwrap();
                self.total_staked = without.checked_add(account.staked_amount).unwrap();
                self.stake_configs.replace(i, account);
            },
            None => {
                proof {
                    lemma_total_push(staked_amounts(rows), account.staked_amount@);
                    lemma_total_push(
                        reward_amounts(rows),
                        account.accumulated_rewards@ + account.total_rewards_used@,
                    );
                    assert(staked_amounts(rows.push(account)) =~= staked_amounts(rows).push(
                        account.staked_amount@,
                    ));
                    assert(reward_amounts(rows.push(account)) =~= reward_amounts(rows).push(
                        account.accumulated_rewards@ + account.total_rewards_used@,
                    ));
                }
                self.total_staked = self.total_staked.checked_add(account.staked_amount).unwrap();
                self.stake_configs.append(account);
            },
        }
        self.total_rewards = self.total_rewards.checked_add(added).unwrap();
    }
}

} // verus!
