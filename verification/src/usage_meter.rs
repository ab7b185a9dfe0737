//! The usage meter: metered units recorded by authorized backends and added
//! up per billing period. A subscription has one open period at a time;
//! closing it hands back its total and opens the next period at its end.

use crate::amount::{max_amount, Amount};
use crate::error::Error;
use crate::identity::Address;
use crate::table::{distinct_keys, holds_key, lemma_place_of, mapping, place_of, Record, Table};
use crate::tally::views;
use vstd::prelude::*;

verus! {

/// One recording of usage.
#[derive(Debug, PartialEq, Eq)]
pub struct UsageRecord {
    /// The subscription that used the units.
    pub subscription_id: Amount,
    /// What was metered, such as calls or stored bytes.
    pub metric: String,
    /// The units used.
    pub units: Amount,
    /// When the usage was recorded.
    pub recorded_at: u64,
    /// Who recorded it.
    pub recorded_by: Address,
}

/// A recording of usage with its units as a natural number.
pub struct UsageRecordView {
    pub subscription_id: Amount,
    pub metric: Seq<char>,
    pub units: nat,
    pub recorded_at: u64,
    pub recorded_by: Address,
}

impl View for UsageRecord {
    type V = UsageRecordView;

    open spec fn view(&self) -> UsageRecordView {
        UsageRecordView {
            subscription_id: self.subscription_id,
            metric: self.metric@,
            units: self.units@,
            recorded_at: self.recorded_at,
            recorded_by: self.recorded_by,
        }
    }
}

impl Clone for UsageRecord {
    fn clone(&self) -> (r: UsageRecord)
        ensures
            r == *self,
    {
        UsageRecord {
            subscription_id: self.subscription_id,
            metric: self.metric.clone(),
            units: self.units,
            recorded_at: self.recorded_at,
            recorded_by: self.recorded_by,
        }
    }
}

/// The usage of a subscription in one billing period.
#[derive(Clone, Copy, Debug, PartialEq, Eq, Structural)]
pub struct BillingPeriodUsage {
    /// The subscription.
    pub subscription_id: Amount,
    /// The start of the period.
    pub period_start: u64,
    /// The end of the period; zero while the period is open.
    pub period_end: u64,
    /// The units used in the period.
    pub total_units: Amount,
    /// Whether the period was closed for billing.
    pub is_billed: bool,
}

/// The usage of a billing period with its units as a natural number.
pub struct BillingPeriodUsageView {
    pub subscription_id: Amount,
    pub period_start: u64,
    pub period_end: u64,
    pub total_units: nat,
    pub is_billed: bool,
}

impl View for BillingPeriodUsage {
    type V = BillingPeriodUsageView;

    open spec fn view(&self) -> BillingPeriodUsageView {
        BillingPeriodUsageView {
            subscription_id: self.subscription_id,
            period_start: self.period_start,
            period_end: self.period_end,
            total_units: self.total_units@,
            is_billed: self.is_billed,
        }
    }
}

impl Record for BillingPeriodUsage {
    type Key = (Amount, u64);

    open spec fn key(&self) -> (Amount, u64) {
        (self.subscription_id, self.period_start)
    }

    fn has_key(&self, key: &(Amount, u64)) -> (r: bool) {
        self.subscription_id == key.0 && self.period_start == key.1
    }

    fn same_key(&self, other: &BillingPeriodUsage) -> (r: bool) {
        self.subscription_id == other.subscription_id && self.period_start == other.period_start
    }
}

impl BillingPeriodUsageView {
    /// An open period of `subscription_id` that starts at `period_start`,
    /// without usage yet.
    pub open spec fn fresh(subscription_id: Amount, period_start: u64) -> BillingPeriodUsageView {
        BillingPeriodUsageView {
            subscription_id,
            period_start,
            period_end: 0,
            total_units: 0,
            is_billed: false,
        }
    }
}

/// Where the current period of a subscription starts.
#[derive(Clone, Copy, Debug, PartialEq, Eq, Structural)]
pub struct PeriodCursor {
    pub subscription_id: Amount,
    pub period_start: u64,
}

impl View for PeriodCursor {
    type V = u64;

    open spec fn view(&self) -> u64 {
        self.period_start
    }
}

impl Record for PeriodCursor {
    type Key = Amount;

    open spec fn key(&self) -> Amount {
        self.subscription_id
    }

    fn has_key(&self, key: &Amount) -> (r: bool) {
        self.subscription_id == *key
    }

    fn same_key(&self, other: &PeriodCursor) -> (r: bool) {
        self.subscription_id == other.subscription_id
    }
}

/// The leave given to a backend to record usage for a plan.
#[derive(Clone, Copy, Debug, PartialEq, Eq, Structural)]
pub struct Grant {
    pub plan_id: Amount,
    pub recorder: Address,
}

impl View for Grant {
    type V = ();

    open spec fn view(&self) -> () {
        ()
    }
}

impl Record for Grant {
    type Key = (Amount, Address);

    open spec fn key(&self) -> (Amount, Address) {
        (self.plan_id, self.recorder)
    }

    fn has_key(&self, key: &(Amount, Address)) -> (r: bool) {
        self.plan_id == key.0 && self.recorder == key.1
    }

    fn same_key(&self, other: &Grant) -> (r: bool) {
        self.plan_id == other.plan_id && self.recorder == other.recorder
    }
}

/// Notice that usage was recorded.
#[derive(Debug, PartialEq, Eq)]
pub struct UsageRecorded {
    pub subscription_id: Amount,
    pub metric: String,
    pub units: Amount,
    pub timestamp: u64,
}

/// Notice that a billing period was closed.
#[derive(Clone, Copy, Debug, PartialEq, Eq, Structural)]
pub struct PeriodClosed {
    pub subscription_id: Amount,
    pub period_start: u64,
    pub period_end: u64,
    pub total_units: Amount,
}

/// The numbers of the records among the first `n` of `records` that belong
/// to `subscription_id`, in their order; records are numbered from one.
pub open spec fn record_ids(records: Seq<UsageRecordView>, subscription_id: Amount, n: nat) -> Seq<
    Amount,
>
    decreases n,
{
    if n == 0 {
        Seq::empty()
    } else if records[n - 1].subscription_id == subscription_id {
        record_ids(records, subscription_id, (n - 1) as nat).push(Amount::of(n))
    } else {
        record_ids(records, subscription_id, (n - 1) as nat)
    }
}

/// The usage meter as a mathematical value.
pub struct UsageMeterView {
    /// The owner, who may always record.
    pub owner: Address,
    /// The subscription registry the meter works with, once it is set.
    pub subscription_manager: Option<Address>,
    /// The recordings, oldest first.
    pub records: Seq<UsageRecordView>,
    /// The usage of each period, by subscription and start of period.
    pub periods: Map<(Amount, u64), BillingPeriodUsageView>,
    /// The start of the current period of each subscription that has one.
    pub current_period_start: Map<Amount, u64>,
    /// The backends that may record, each with the plan it may record for.
    pub authorized: Set<(Amount, Address)>,
}

impl UsageMeterView {
    /// What holds of every meter: each period is filed under its
    /// subscription and start, its subscription has a current period, and a
    /// period that is not billed is the current one. So a subscription has
    /// at most one open period.
    pub open spec fn valid(self) -> bool {
        forall|key: (Amount, u64)| #[trigger]
            self.periods.contains_key(key) ==> {
                &&& self.periods[key].subscription_id == key.0
                &&& self.periods[key].period_start == key.1
                &&& self.current_period_start.contains_key(key.0)
                &&& !self.periods[key].is_billed ==> self.current_period_start[key.0] == key.1
            }
    }

    /// Whether the usage of every period fits in 256 bits and the records
    /// can still be numbered.
    pub open spec fn fits(self) -> bool {
        &&& self.records.len() <= u64::MAX
        &&& forall|key: (Amount, u64)| #[trigger]
            self.periods.contains_key(key) ==> self.periods[key].total_units <= max_amount()
    }

    /// Whether `caller` may record usage for `plan_id`: a backend given
    /// leave for the plan, or the owner.
    pub open spec fn may_record(self, caller: Address, plan_id: Amount) -> bool {
        self.authorized.contains((plan_id, caller)) || caller == self.owner
    }

    /// The start of the period that usage of `subscription_id` recorded at
    /// `now` falls into: that of the current period, or `now` for a
    /// subscription without one.
    pub open spec fn period_start_for(self, subscription_id: Amount, now: u64) -> u64 {
        if self.current_period_start.contains_key(subscription_id) {
            self.current_period_start[subscription_id]
        } else {
            now
        }
    }

    /// The period of `subscription_id` that starts at `period_start`, or a
    /// fresh one.
    pub open spec fn period_or_fresh(
        self,
        subscription_id: Amount,
        period_start: u64,
    ) -> BillingPeriodUsageView {
        if self.periods.contains_key((subscription_id, period_start)) {
            self.periods[(subscription_id, period_start)]
        } else {
            BillingPeriodUsageView::fresh(subscription_id, period_start)
        }
    }

    /// Whether the usage of the period that usage of `subscription_id`
    /// recorded at `now` falls into still fits in 256 bits with `units`
    /// more.
    pub open spec fn usage_fits(self, subscription_id: Amount, units: nat, now: u64) -> bool {
        self.period_or_fresh(
            subscription_id,
            self.period_start_for(subscription_id, now),
        ).total_units + units <= max_amount()
    }

    /// The usage of `subscription_id` in its current period; zero without a
    /// current period or without usage in it.
    pub open spec fn current_usage(self, subscription_id: Amount) -> nat {
        self.period_or_fresh(subscription_id, self.period_start_for(subscription_id, 0)).total_units
    }

    /// The meter after `units` were added to the current period of
    /// `subscription_id` at `now`. A subscription without a current period
    /// gets one that starts at `now`.
    pub open spec fn update_period_usage(
        self,
        subscription_id: Amount,
        units: nat,
        now: u64,
    ) -> UsageMeterView {
        let start = self.period_start_for(subscription_id, now);
        let period = self.period_or_fresh(subscription_id, start);
        UsageMeterView {
            periods: self.periods.insert(
                (subscription_id, start),
                BillingPeriodUsageView { total_units: period.total_units + units, ..period },
            ),
            current_period_start: self.current_period_start.insert(subscription_id, start),
            ..self
        }
    }

    /// The meter after `caller` recorded `units` of `metric` for
    /// `subscription_id` at `now`: one more record, and the units added to
    /// the current period.
    pub open spec fn recorded(
        self,
        caller: Address,
        subscription_id: Amount,
        metric: Seq<char>,
        units: nat,
        now: u64,
    ) -> UsageMeterView {
        UsageMeterView {
            records: self.records.push(
                UsageRecordView {
                    subscription_id,
                    metric,
                    units,
                    recorded_at: now,
                    recorded_by: caller,
                },
            ),
            ..self.update_period_usage(subscription_id, units, now)
        }
    }

    /// Recording usage. A caller who may not record for the plan is
    /// refused.
    pub open spec fn record_usage(
        self,
        caller: Address,
        subscription_id: Amount,
        plan_id: Amount,
        metric: Seq<char>,
        units: nat,
        now: u64,
    ) -> Result<UsageMeterView, Error> {
        if !self.may_record(caller, plan_id) {
            Err(Error::Unauthorized)
        } else {
            Ok(self.recorded(caller, subscription_id, metric, units, now))
        }
    }

    /// The meter after the first `n` entries of a batch were recorded in
    /// turn.
    pub open spec fn recorded_batch(
        self,
        caller: Address,
        subscription_ids: Seq<Amount>,
        metric: Seq<char>,
        units: Seq<nat>,
        now: u64,
        n: nat,
    ) -> UsageMeterView
        decreases n,
    {
        if n == 0 {
            self
        } else {
            self.recorded_batch(
                caller,
                subscription_ids,
                metric,
                units,
                now,
                (n - 1) as nat,
            ).recorded(caller, subscription_ids[n - 1], metric, units[n - 1], now)
        }
    }

    /// The meter after the units of the first `n` entries of a batch were
    /// added to the current periods in turn.
    pub open spec fn metered_batch(
        self,
        subscription_ids: Seq<Amount>,
        units: Seq<nat>,
        now: u64,
        n: nat,
    ) -> UsageMeterView
        decreases n,
    {
        if n == 0 {
            self
        } else {
            self.metered_batch(subscription_ids, units, now, (n - 1) as nat).update_period_usage(
                subscription_ids[n - 1],
                units[n - 1],
                now,
            )
        }
    }

    /// Whether a batch can be recorded within range: whether the records
    /// can still be numbered with it, and the usage of the period that each
    /// entry falls into, the entries before it added, still fits in 256 bits
    /// with the entry.
    pub open spec fn batch_fits(self, subscription_ids: Seq<Amount>, units: Seq<nat>, now: u64) -> bool {
        &&& self.records.len() + subscription_ids.len() <= u64::MAX
        &&& forall|n: nat|
            n < subscription_ids.len() ==> (#[trigger] self.metered_batch(
                subscription_ids,
                units,
                now,
                n,
            )).usage_fits(subscription_ids[n as int], units[n as int], now)
    }

    /// Recording a batch: the entries are recorded in turn, all or none.
    /// Lists of different lengths are refused; a batch that is not empty is
    /// refused to a caller who may not record for the plan.
    pub open spec fn batch_record_usage(
        self,
        caller: Address,
        subscription_ids: Seq<Amount>,
        plan_id: Amount,
        metric: Seq<char>,
        units: Seq<nat>,
        now: u64,
    ) -> Result<UsageMeterView, Error> {
        if subscription_ids.len() != units.len() {
            Err(Error::InvalidParameter)
        } else if subscription_ids.len() > 0 && !self.may_record(caller, plan_id) {
            Err(Error::Unauthorized)
        } else {
            Ok(
                self.recorded_batch(
                    caller,
                    subscription_ids,
                    metric,
                    units,
                    now,
                    subscription_ids.len(),
                ),
            )
        }
    }

    /// The start of the period that closing closes: that of the current
    /// period, or zero for a subscription without one.
    pub open spec fn closing_start(self, subscription_id: Amount) -> u64 {
        self.period_start_for(subscription_id, 0)
    }

    /// The meter after the current period of `subscription_id` was closed at
    /// `period_end`: the period is billed and ends there, and the next
    /// period starts there.
    pub open spec fn close_period(self, subscription_id: Amount, period_end: u64) -> UsageMeterView {
        let start = self.closing_start(subscription_id);
        let period = self.period_or_fresh(subscription_id, start);
        UsageMeterView {
            periods: self.periods.insert(
                (subscription_id, start),
                BillingPeriodUsageView { period_end, is_billed: true, ..period },
            ),
            current_period_start: self.current_period_start.insert(subscription_id, period_end),
            ..self
        }
    }
}

/// Adding usage to the current period keeps a meter valid.
pub proof fn lemma_update_valid(meter: UsageMeterView, subscription_id: Amount, units: nat, now: u64)
    requires
        meter.valid(),
    ensures
        meter.update_period_usage(subscription_id, units, now).valid(),
{
    let next = meter.update_period_usage(subscription_id, units, now);
    let start = meter.period_start_for(subscription_id, now);
    assert forall|key: (Amount, u64)| #[trigger] next.periods.contains_key(key) implies {
        &&& next.periods[key].subscription_id == key.0
        &&& next.periods[key].period_start == key.1
        &&& next.current_period_start.contains_key(key.0)
        &&& !next.periods[key].is_billed ==> next.current_period_start[key.0] == key.1
    } by {
        if key != (subscription_id, start) {
            assert(meter.periods.contains_key(key));
        }
    }
}

/// Usage adds up: units added for a subscription raise the usage of its
/// current period by just those units and leave the usage of every other
/// subscription as it was.
pub proof fn lemma_usage_adds_up(
    meter: UsageMeterView,
    subscription_id: Amount,
    units: nat,
    now: u64,
    other: Amount,
)
    requires
        meter.valid(),
    ensures
        meter.update_period_usage(subscription_id, units, now).current_usage(subscription_id)
            == meter.current_usage(subscription_id) + units,
        other != subscription_id ==> meter.update_period_usage(
            subscription_id,
            units,
            now,
        ).current_usage(other) == meter.current_usage(other),
{
}

/// Closing hands over the usage of the current period, files it under the
/// start of that period as billed, and, unless a period of the
/// subscription was filed under the end of the closed one before, leaves the
/// subscription with no usage in its new current period.
pub proof fn lemma_close_period_rolls_over(
    meter: UsageMeterView,
    subscription_id: Amount,
    period_end: u64,
)
    requires
        meter.valid(),
    ensures
        ({
            let next = meter.close_period(subscription_id, period_end);
            let start = meter.closing_start(subscription_id);
            &&& next.periods.contains_key((subscription_id, start))
            &&& next.periods[(subscription_id, start)].is_billed
            &&& next.periods[(subscription_id, start)].period_end == period_end
            &&& next.periods[(subscription_id, start)].total_units == meter.current_usage(
                subscription_id,
            )
            &&& next.period_start_for(subscription_id, 0) == period_end
            &&& period_end != start && !meter.periods.contains_key((subscription_id, period_end))
                ==> next.current_usage(subscription_id) == 0
        }),
{
}

/// Recording a batch adds the units of its entries to the periods as adding
/// them in turn does, and appends one record for each entry.
pub proof fn lemma_batch_meters(
    meter: UsageMeterView,
    caller: Address,
    subscription_ids: Seq<Amount>,
    metric: Seq<char>,
    units: Seq<nat>,
    now: u64,
    n: nat,
)
    ensures
        meter.recorded_batch(caller, subscription_ids, metric, units, now, n).periods
            == meter.metered_batch(subscription_ids, units, now, n).periods,
        meter.recorded_batch(
            caller,
            subscription_ids,
            metric,
            units,
            now,
            n,
        ).current_period_start == meter.metered_batch(
            subscription_ids,
            units,
            now,
            n,
        ).current_period_start,
        meter.recorded_batch(caller, subscription_ids, metric, units, now, n).records.len()
            == meter.records.len() + n,
    decreases n,
{
    if n > 0 {
        lemma_batch_meters(
            meter,
            caller,
            subscription_ids,
            metric,
            units,
            now,
            (n - 1) as nat,
        );
    }
}

/// Recording keeps a meter valid.
pub proof fn lemma_recorded_valid(
    meter: UsageMeterView,
    caller: Address,
    subscription_id: Amount,
    metric: Seq<char>,
    units: nat,
    now: u64,
)
    requires
        meter.valid(),
    ensures
        meter.recorded(caller, subscription_id, metric, units, now).valid(),
{
    let next = meter.recorded(caller, subscription_id, metric, units, now);
    let start = meter.period_start_for(subscription_id, now);
    assert forall|key: (Amount, u64)| #[trigger] next.periods.contains_key(key) implies {
        &&& next.periods[key].subscription_id == key.0
        &&& next.periods[key].period_start == key.1
        &&& next.current_period_start.contains_key(key.0)
        &&& !next.periods[key].is_billed ==> next.current_period_start[key.0] == key.1
    } by {
        if key != (subscription_id, start) {
            assert(meter.periods.contains_key(key));
        } else if meter.periods.contains_key(key) {
        }
    }
}

/// Closing keeps a meter valid, leaves the subscription without an open
/// period, and starts its next period where the closed one ends.
pub proof fn lemma_close_period_valid(meter: UsageMeterView, subscription_id: Amount, period_end: u64)
    requires
        meter.valid(),
    ensures
        meter.close_period(subscription_id, period_end).valid(),
        meter.close_period(subscription_id, period_end).current_period_start[subscription_id]
            == period_end,
        forall|start: u64| #[trigger]
            meter.close_period(subscription_id, period_end).periods.contains_key(
                (subscription_id, start),
            ) ==> meter.close_period(subscription_id, period_end).periods[(
                subscription_id,
                start,
            )].is_billed,
{
    let next = meter.close_period(subscription_id, period_end);
    let closing = meter.closing_start(subscription_id);
    assert forall|key: (Amount, u64)| #[trigger] next.periods.contains_key(key) implies {
        &&& next.periods[key].subscription_id == key.0
        &&& next.periods[key].period_start == key.1
        &&& next.current_period_start.contains_key(key.0)
        &&& !next.periods[key].is_billed ==> next.current_period_start[key.0] == key.1
    } by {
        if key != (subscription_id, closing) {
            assert(meter.periods.contains_key(key));
        }
    }
    assert forall|start: u64| #[trigger]
        next.periods.contains_key((subscription_id, start)) implies next.periods[(
        subscription_id,
        start,
    )].is_billed by {
        if start != closing {
            assert(meter.periods.contains_key((subscription_id, start)));
        }
    }
}


/// The usage meter laid out in plain values, as it is kept between calls.
pub struct UsageMeterState {
    pub owner: Address,
    pub subscription_manager: Option<Address>,
    pub records: Vec<UsageRecord>,
    pub periods: Vec<BillingPeriodUsage>,
    pub cursors: Vec<PeriodCursor>,
    pub recorders: Vec<Grant>,
}

impl UsageMeterState {
    /// The meter that the values make up.
    pub open spec fn meter(&self) -> UsageMeterView {
        UsageMeterView {
            owner: self.owner,
            subscription_manager: self.subscription_manager,
            records: views(self.records@),
            periods: mapping(self.periods@),
            current_period_start: mapping(self.cursors@),
            authorized: mapping(self.recorders@).dom(),
        }
    }

    /// Whether the values make up a meter: no period, no subscription and
    /// no leave is filed twice, and the meter they make up is valid.
    pub open spec fn valid(&self) -> bool {
        &&& distinct_keys(self.periods@)
        &&& distinct_keys(self.cursors@)
        &&& distinct_keys(self.recorders@)
        &&& self.meter().valid()
    }
}

/// The usage meter.
pub struct UsageMeter {
    owner: Address,
    subscription_manager: Option<Address>,
    records: Vec<UsageRecord>,
    periods: Table<BillingPeriodUsage>,
    cursors: Table<PeriodCursor>,
    recorders: Table<Grant>,
}

impl View for UsageMeter {
    type V = UsageMeterView;

    closed spec fn view(&self) -> UsageMeterView {
        UsageMeterView {
            owner: self.owner,
            subscription_manager: self.subscription_manager,
            records: views(self.records@),
            periods: self.periods@,
            current_period_start: self.cursors@,
            authorized: self.recorders@.dom(),
        }
    }
}

impl UsageMeter {
    /// The invariant of the meter: no key is filed twice, and the view is
    /// valid.
    pub closed spec fn wf(&self) -> bool {
        &&& self.periods.wf()
        &&& self.cursors.wf()
        &&& self.recorders.wf()
        &&& self@.valid()
    }

    /// A well-formed meter has a valid view that fits.
    pub proof fn lemma_valid(&self)
        requires
            self.wf(),
        ensures
            self@.valid(),
            self@.fits(),
    {
        assert(self.records.len() <= usize::MAX);
        assert forall|key: (Amount, u64)| #[trigger]
            self@.periods.contains_key(key) implies self@.periods[key].total_units
            <= max_amount() by {
            let i = place_of(self.periods.rows(), key)->Some_0;
            self.periods.rows()[i].total_units.lemma_bounded();
        }
    }

    /// The meter that `state` makes up, or `None` when it makes up none.
    pub fn from_state(state: UsageMeterState) -> (r: Option<UsageMeter>)
        ensures
            match r {
                Some(meter) => state.valid() && meter.wf() && meter@ == state.meter(),
                None => !state.valid(),
            },
    {
        let ghost view = state.meter();
        let periods = match Table::from_rows(state.periods) {
            Some(table) => table,
            None => {
                return None;
            },
        };
        let cursors = match Table::from_rows(state.cursors) {
            Some(table) => table,
            None => {
                return None;
            },
        };
        let recorders = match Table::from_rows(state.recorders) {
            Some(table) => table,
            None => {
                return None;
            },
        };
        let mut i: usize = 0;
        while i < periods.len()
            invariant
                i <= periods.rows().len(),
                periods.wf(),
                cursors.wf(),
                view == state.meter(),
                view.periods == periods@,
                view.current_period_start == cursors@,
                forall|j: int|
                    0 <= j < i ==> {
                        let row = #[trigger] periods.rows()[j];
                        &&& cursors@.contains_key(row.subscription_id)
                        &&& !row.is_billed ==> cursors@[row.subscription_id] == row.period_start
                    },
            decreases periods.rows().len() - i,
        {
            let row = *periods.row(i);
            proof {
                assert(holds_key(periods.rows(), row.key(), i as int));
                lemma_place_of(periods.rows(), row.key(), i as int);
                assert(view.periods.contains_key(row.key()));
                assert(view.periods[row.key()] == row@);
            }
            match cursors.get(&row.subscription_id) {
                Some(cursor) => {
                    if !row.is_billed && cursor.period_start != row.period_start {
                        return None;
                    }
                },
                None => {
                    return None;
                },
            }
            i += 1;
        }
        proof {
            assert forall|key: (Amount, u64)| #[trigger] view.periods.contains_key(key) implies {
                &&& view.periods[key].subscription_id == key.0
                &&& view.periods[key].period_start == key.1
                &&& view.current_period_start.contains_key(key.0)
                &&& !view.periods[key].is_billed ==> view.current_period_start[key.0] == key.1
            } by {
                let j = place_of(periods.rows(), key)->Some_0;
                assert(holds_key(periods.rows(), key, j));
                let row = periods.rows()[j];
                assert(row.key() == key);
            }
        }
        Some(
            UsageMeter {
                owner: state.owner,
                subscription_manager: state.subscription_manager,
                records: state.records,
                periods,
                cursors,
                recorders,
            },
        )
    }

    /// The meter laid out in plain values.
    pub fn into_state(self) -> (state: UsageMeterState)
        requires
            self.wf(),
        ensures
            state.valid(),
            state.meter() == self@,
    {
        UsageMeterState {
            owner: self.owner,
            subscription_manager: self.subscription_manager,
            records: self.records,
            periods: self.periods.into_rows(),
            cursors: self.cursors.into_rows(),
            recorders: self.recorders.into_rows(),
        }
    }

    /// A new meter, owned by `caller`: no records, no periods, no backends
    /// with leave to record.
    pub fn init(caller: Address) -> (meter: UsageMeter)
        ensures
            meter.wf(),
            meter@ == (UsageMeterView {
                owner: caller,
                subscription_manager: None,
                records: Seq::empty(),
                periods: Map::empty(),
                current_period_start: Map::empty(),
                authorized: Set::empty(),
            }),
    {
        let meter = UsageMeter {
            owner: caller,
            subscription_manager: None,
            records: Vec::new(),
            periods: Table::new(),
            cursors: Table::new(),
            recorders: Table::new(),
        };
        assert(views(meter.records@) =~= Seq::<UsageRecordView>::empty());
        assert(meter.recorders@.dom() =~= Set::<(Amount, Address)>::empty());
        meter
    }

    /// Gives `recorder` leave to record usage for `plan_id`.
    pub fn authorize_recorder(&mut self, plan_id: Amount, recorder: Address)
        requires
            old(self).wf(),
        ensures
            final(self).wf(),
            final(self)@ == (UsageMeterView {
                authorized: old(self)@.authorized.insert((plan_id, recorder)),
                ..old(self)@
            }),
    {
        let key = (plan_id, recorder);
        if self.recorders.find(&key).is_none() {
            self.recorders.append(Grant { plan_id, recorder });
        }
        assert(self.recorders@.dom() =~= old(self).recorders@.dom().insert(key));
    }

    /// Takes from `recorder` the leave to record usage for `plan_id`.
    pub fn revoke_recorder(&mut self, plan_id: Amount, recorder: Address)
        requires
            old(self).wf(),
        ensures
            final(self).wf(),
            final(self)@ == (UsageMeterView {
                authorized: old(self)@.authorized.remove((plan_id, recorder)),
                ..old(self)@
            }),
    {
        let key = (plan_id, recorder);
        match self.recorders.find(&key) {
            Some(i) => {
                self.recorders.take(i);
            },
            None => {},
        }
        assert(self.recorders@.dom() =~= old(self).recorders@.dom().remove(key));
    }

    /// Whether `address` has leave to record usage for `plan_id`.
    pub fn is_authorized(&self, plan_id: Amount, address: Address) -> (r: bool)
        requires
            self.wf(),
        ensures
            r == self@.authorized.contains((plan_id, address)),
    {
        self.recorders.find(&(plan_id, address)).is_some()
    }

    /// Whether `caller` may record usage for `plan_id`: a backend given
    /// leave for the plan, or the owner.
    pub fn may_record(&self, caller: Address, plan_id: Amount) -> (r: bool)
        requires
            self.wf(),
        ensures
            r == self@.may_record(caller, plan_id),
    {
        caller == self.owner || self.is_authorized(plan_id, caller)
    }

    /// Whether a recording stays in range: true unless it would be accepted
    /// and either the usage of the period would leave 256 bits with the
    /// units, or the records could no longer be numbered.
    pub fn recording_in_range(
        &self,
        caller: Address,
        subscription_id: Amount,
        plan_id: Amount,
        units: Amount,
        now: u64,
    ) -> (r: bool)
        requires
            self.wf(),
        ensures
            forall|metric: Seq<char>|
                r == (#[trigger] self@.record_usage(
                    caller,
                    subscription_id,
                    plan_id,
                    metric,
                    units@,
                    now,
                ) is Ok ==> self@.usage_fits(subscription_id, units@, now) && self@.records.len()
                    < u64::MAX),
    {
        if !self.may_record(caller, plan_id) {
            return true;
        }
        self.usage_fits(subscription_id, units, now) && self.total_records() < u64::MAX
    }

    /// Whether a batch stays in range: true unless it would be accepted and
    /// could not be recorded within range.
    pub fn batch_in_range(
        &self,
        caller: Address,
        subscription_ids: &Vec<Amount>,
        plan_id: Amount,
        units_list: &Vec<Amount>,
        now: u64,
    ) -> (r: bool)
        requires
            self.wf(),
        ensures
            forall|metric: Seq<char>|
                r == (#[trigger] self@.batch_record_usage(
                    caller,
                    subscription_ids@,
                    plan_id,
                    metric,
                    views(units_list@),
                    now,
                ) is Ok ==> self@.batch_fits(subscription_ids@, views(units_list@), now)),
    {
        assert(views(units_list@).len() == units_list@.len());
        if subscription_ids.len() != units_list.len() {
            return true;
        }
        if subscription_ids.len() > 0 && !self.may_record(caller, plan_id) {
            return true;
        }
        self.batch_fits(subscription_ids, units_list, now)
    }

    /// Whether the usage of the period that usage of `subscription_id`
    /// recorded at `now` falls into still fits in 256 bits with `units`
    /// more.
    pub fn usage_fits(&self, subscription_id: Amount, units: Amount, now: u64) -> (r: bool)
        requires
            self.wf(),
        ensures
            r == self@.usage_fits(subscription_id, units@, now),
    {
        let start = match self.cursors.get(&subscription_id) {
            Some(cursor) => cursor.period_start,
            None => now,
        };
        match self.periods.get(&(subscription_id, start)) {
            Some(period) => period.total_units.checked_add(units).is_some(),
            None => {
                proof {
                    units.lemma_bounded();
                }
                true
            },
        }
    }

    /// Adds `units` to the current period of `subscription_id`. A
    /// subscription without a current period gets one that starts at `now`.
    pub fn update_period_usage(&mut self, subscription_id: Amount, units: Amount, now: u64)
        requires
            old(self).wf(),
            old(self)@.usage_fits(subscription_id, units@, now),
        ensures
            final(self).wf(),
            final(self)@ == old(self)@.update_period_usage(subscription_id, units@, now),
    {
        let ghost before = self@;
        let start = match self.cursors.get(&subscription_id) {
            Some(cursor) => cursor.period_start,
            None => {
                self.cursors.append(PeriodCursor { subscription_id, period_start: now });
                now
            },
        };
        assert(self.cursors@ =~= before.current_period_start.insert(subscription_id, start));
        let key = (subscription_id, start);
        match self.periods.find(&key) {
            Some(i) => {
                let mut period = *self.periods.row(i);
                period.total_units = period.total_units.checked_add(units).unwrap();
                self.periods.replace(i, period);
            },
            None => {
                self.periods.append(
                    BillingPeriodUsage {
                        subscription_id,
                        period_start: start,
                        period_end: 0,
                        total_units: units,
                        is_billed: false,
                    },
                );
            },
        }
        proof {
            lemma_update_valid(before, subscription_id, units@, now);
        }
    }

    /// Records that `subscription_id` used `units` of `metric`, as told by
    /// `caller` at `now`: the record is appended and the units are added to
    /// the current period. Returns the number of the record and the notice.
    /// A caller who is neither the owner nor a backend with leave for
    /// `plan_id` is refused with `Unauthorized`.
    pub fn record_usage(
        &mut self,
        caller: Address,
        subscription_id: Amount,
        plan_id: Amount,
        metric: String,
        units: Amount,
        now: u64,
    ) -> (r: Result<(Amount, UsageRecorded), Error>)
        requires
            old(self).wf(),
            old(self)@.record_usage(caller, subscription_id, plan_id, metric@, units@, now)
                is Ok ==> old(self)@.usage_fits(subscription_id, units@, now)
                && old(self)@.records.len() < u64::MAX,
        ensures
            final(self).wf(),
            match r {
                Ok((record_id, notice)) => {
                    &&& old(self)@.record_usage(
                        caller,
                        subscription_id,
                        plan_id,
                        metric@,
                        units@,
                        now,
                    ) == Ok::<UsageMeterView, Error>(final(self)@)
                    &&& record_id@ == old(self)@.records.len() + 1
                    &&& notice.subscription_id == subscription_id
                    &&& notice.metric@ == metric@
                    &&& notice.units == units
                    &&& notice.timestamp == now
                },
                Err(e) => {
                    &&& old(self)@.record_usage(
                        caller,
                        subscription_id,
                        plan_id,
                        metric@,
                        units@,
                        now,
                    ) == Err::<UsageMeterView, Error>(e)
                    &&& final(self)@ == old(self)@
                },
            },
    {
        if !self.may_record(caller, plan_id) {
            return Err(Error::Unauthorized);
        }
        let ghost filed = self.records@;
        assert(views(filed).len() == filed.len());
        let record_id = Amount::from_u64((self.records.len() as u64) + 1);
        let record = UsageRecord {
            subscription_id,
            metric: metric.clone(),
            units,
            recorded_at: now,
            recorded_by: caller,
        };
        let ghost entry = record@;
        self.records.push(record);
        proof {
            assert(views(self.records@) =~= views(filed).push(entry));
        }
        self.update_period_usage(subscription_id, units, now);
        Ok((record_id, UsageRecorded { subscription_id, metric, units, timestamp: now }))
    }

    /// Whether a batch can be recorded within range: whether the records
    /// can still be numbered with it, and the usage of the period that each
    /// entry falls into, the entries before it added, still fits in 256 bits
    /// with the entry. Says nothing of lists of different lengths.
    pub fn batch_fits(&self, subscription_ids: &Vec<Amount>, units_list: &Vec<Amount>, now: u64) -> (r:
        bool)
        requires
            self.wf(),
        ensures
            subscription_ids@.len() == units_list@.len() ==> r == self@.batch_fits(
                subscription_ids@,
                views(units_list@),
                now,
            ),
    {
        if subscription_ids.len() != units_list.len() {
            return true;
        }
        assert(views(self.records@).len() == self.records@.len());
        assert(views(units_list@).len() == units_list@.len());
        if subscription_ids.len() as u64 > u64::MAX - (self.records.len() as u64) {
            return false;
        }
        let ghost units = views(units_list@);
        let mut scratch = UsageMeter {
            owner: self.owner,
            subscription_manager: None,
            records: Vec::new(),
            periods: self.periods.duplicate(),
            cursors: self.cursors.duplicate(),
            recorders: Table::new(),
        };
        proof {
            assert(scratch.periods.rows() == self.periods.rows());
            assert(scratch.cursors.rows() == self.cursors.rows());
            assert(scratch@.periods == self@.periods);
            assert(scratch@.current_period_start == self@.current_period_start);
            assert(self@.valid());
            assert(scratch@.valid());
        }
        let mut i: usize = 0;
        while i < subscription_ids.len()
            invariant
                i <= subscription_ids.len(),
                subscription_ids.len() == units_list.len(),
                units == views(units_list@),
                scratch.wf(),
                scratch@.periods == self@.metered_batch(
                    subscription_ids@,
                    units,
                    now,
                    i as nat,
                ).periods,
                scratch@.current_period_start == self@.metered_batch(
                    subscription_ids@,
                    units,
                    now,
                    i as nat,
                ).current_period_start,
                forall|n: nat|
                    n < i ==> (#[trigger] self@.metered_batch(
                        subscription_ids@,
                        units,
                        now,
                        n,
                    )).usage_fits(subscription_ids@[n as int], units[n as int], now),
            decreases subscription_ids.len() - i,
        {
            let ghost reached = self@.metered_batch(subscription_ids@, units, now, i as nat);
            assert(self@.metered_batch(subscription_ids@, units, now, (i + 1) as nat)
                == reached.update_period_usage(subscription_ids@[i as int], units[i as int], now));
            if !scratch.usage_fits(subscription_ids[i], units_list[i], now) {
                assert(!reached.usage_fits(subscription_ids@[i as int], units[i as int], now));
                return false;
            }
            assert(reached.usage_fits(subscription_ids@[i as int], units[i as int], now));
            scratch.update_period_usage(subscription_ids[i], units_list[i], now);
            i += 1;
        }
        true
    }

    /// Records a batch: entry `i` says that `subscription_ids[i]` used
    /// `units_list[i]` of `metric`. The entries are recorded in turn, all or
    /// none. Returns the notices in the order of the entries. Lists of
    /// different lengths are refused with `InvalidParameter`; a batch that
    /// is not empty is refused with `Unauthorized` to a caller who is
    /// neither the owner nor a backend with leave for `plan_id`.
    pub fn batch_record_usage(
        &mut self,
        caller: Address,
        subscription_ids: Vec<Amount>,
        plan_id: Amount,
        metric: String,
        units_list: Vec<Amount>,
        now: u64,
    ) -> (r: Result<Vec<UsageRecorded>, Error>)
        requires
            old(self).wf(),
            old(self)@.batch_record_usage(
                caller,
                subscription_ids@,
                plan_id,
                metric@,
                views(units_list@),
                now,
            ) is Ok ==> old(self)@.batch_fits(subscription_ids@, views(units_list@), now),
        ensures
            final(self).wf(),
            match r {
                Ok(notices) => {
                    &&& old(self)@.batch_record_usage(
                        caller,
                        subscription_ids@,
                        plan_id,
                        metric@,
                        views(units_list@),
                        now,
                    ) == Ok::<UsageMeterView, Error>(final(self)@)
                    &&& notices@.len() == subscription_ids@.len()
                    &&& forall|i: int|
                        0 <= i < notices@.len() ==> {
                            &&& (#[trigger] notices@[i]).subscription_id == subscription_ids@[i]
                            &&& notices@[i].metric@ == metric@
                            &&& notices@[i].units == units_list@[i]
                            &&& notices@[i].timestamp == now
                        }
                },
                Err(e) => {
                    &&& old(self)@.batch_record_usage(
                        caller,
                        subscription_ids@,
                        plan_id,
                        metric@,
                        views(units_list@),
                        now,
                    ) == Err::<UsageMeterView, Error>(e)
                    &&& final(self)@ == old(self)@
                },
            },
    {
        assert(views(units_list@).len() == units_list@.len());
        if subscription_ids.len() != units_list.len() {
            return Err(Error::InvalidParameter);
        }
        let mut notices: Vec<UsageRecorded> = Vec::new();
        if subscription_ids.len() == 0 {
            return Ok(notices);
        }
        if !self.may_record(caller, plan_id) {
            return Err(Error::Unauthorized);
        }
        let ghost start = self@;
        let ghost units = views(units_list@);
        let mut i: usize = 0;
        while i < subscription_ids.len()
            invariant
                i <= subscription_ids.len(),
                subscription_ids.len() == units_list.len(),
                units == views(units_list@),
                self.wf(),
                self@.may_record(caller, plan_id),
                self@ == start.recorded_batch(
                    caller,
                    subscription_ids@,
                    metric@,
                    units,
                    now,
                    i as nat,
                ),
                start.batch_fits(subscription_ids@, units, now),
                notices@.len() == i,
                forall|j: int|
                    0 <= j < i ==> {
                        &&& (#[trigger] notices@[j]).subscription_id == subscription_ids@[j]
                        &&& notices@[j].metric@ == metric@
                        &&& notices@[j].units == units_list@[j]
                        &&& notices@[j].timestamp == now
                    },
            decreases subscription_ids.len() - i,
        {
            proof {
                let after = start.recorded_batch(
                    caller,
                    subscription_ids@,
                    metric@,
                    units,
                    now,
                    (i + 1) as nat,
                );
                lemma_batch_meters(
                    start,
                    caller,
                    subscription_ids@,
                    metric@,
                    units,
                    now,
                    i as nat,
                );
                assert(start.metered_batch(subscription_ids@, units, now, i as nat).usage_fits(
                    subscription_ids@[i as int],
                    units[i as int],
                    now,
                ));
                assert(after == self@.recorded(
                    caller,
                    subscription_ids@[i as int],
                    metric@,
                    units[i as int],
                    now,
                ));
            }
            match self.record_usage(
                caller,
                subscription_ids[i],
                plan_id,
                metric.clone(),
                units_list[i],
                now,
            ) {
                Ok(done) => {
                    notices.push(done.1);
                },
                Err(_) => {
                    assert(false);
                },
            }
            i += 1;
        }
        Ok(notices)
    }

    /// Closes the current period of `subscription_id` at `period_end` and
    /// returns the notice, which holds the units used in it. The next
    /// period starts at `period_end`. A subscription without a current
    /// period closes an empty period that starts at zero.
    pub fn close_period(&mut self, subscription_id: Amount, period_end: u64) -> (closed: PeriodClosed)
        requires
            old(self).wf(),
        ensures
            final(self).wf(),
            final(self)@ == old(self)@.close_period(subscription_id, period_end),
            closed.subscription_id == subscription_id,
            closed.period_start == old(self)@.closing_start(subscription_id),
            closed.period_end == period_end,
            closed.total_units@ == old(self)@.current_usage(subscription_id),
    {
        let ghost before = self@;
        let start = match self.cursors.find(&subscription_id) {
            Some(i) => {
                let start = self.cursors.row(i).period_start;
                self.cursors.replace(i, PeriodCursor { subscription_id, period_start: period_end });
                start
            },
            None => {
                self.cursors.append(PeriodCursor { subscription_id, period_start: period_end });
                0
            },
        };
        let key = (subscription_id, start);
        let total_units = match self.periods.find(&key) {
            Some(i) => {
                let mut period = *self.periods.row(i);
                period.period_end = period_end;
                period.is_billed = true;
                self.periods.replace(i, period);
                period.total_units
            },
            None => {
                self.periods.append(
                    BillingPeriodUsage {
                        subscription_id,
                        period_start: start,
                        period_end,
                        total_units: Amount::zero(),
                        is_billed: true,
                    },
                );
                Amount::zero()
            },
        };
        proof {
            lemma_close_period_valid(before, subscription_id, period_end);
        }
        PeriodClosed { subscription_id, period_start: start, period_end, total_units }
    }

    /// The usage of `subscription_id` in its current period; zero without a
    /// current period or without usage in it.
    pub fn get_current_usage(&self, subscription_id: Amount) -> (r: Amount)
        requires
            self.wf(),
        ensures
            r@ == self@.current_usage(subscription_id),
    {
        let start = match self.cursors.get(&subscription_id) {
            Some(cursor) => cursor.period_start,
            None => 0,
        };
        match self.periods.get(&(subscription_id, start)) {
            Some(period) => period.total_units,
            None => Amount::zero(),
        }
    }

    /// The record with the number `record_id`, if there is one.
    pub fn get_record(&self, record_id: Amount) -> (r: Option<UsageRecord>)
        ensures
            match r {
                Some(record) => 1 <= record_id@ <= self@.records.len() && record@
                    == self@.records[record_id@ - 1],
                None => record_id@ == 0 || record_id@ > self@.records.len(),
            },
    {
        assert(views(self.records@).len() == self.records@.len());
        assert(self.records.len() <= usize::MAX);
        let number = match record_id.to_u64() {
            Some(number) => number,
            None => {
                return None;
            },
        };
        if number == 0 || number > self.records.len() as u64 {
            return None;
        }
        let place: usize = (number - 1) as usize;
        Some(self.records[place].clone())
    }

    /// The numbers of the records of `subscription_id`, oldest first.
    pub fn get_subscription_records(&self, subscription_id: Amount) -> (ids: Vec<Amount>)
        ensures
            ids@ == record_ids(self@.records, subscription_id, self@.records.len()),
    {
        assert(views(self.records@).len() == self.records@.len());
        let mut ids: Vec<Amount> = Vec::new();
        let mut i: usize = 0;
        while i < self.records.len()
            invariant
                i <= self.records.len(),
                ids@ == record_ids(views(self.records@), subscription_id, i as nat),
            decreases self.records.len() - i,
        {
            if self.records[i].subscription_id == subscription_id {
                ids.push(Amount::from_u64((i as u64) + 1));
            }
            i += 1;
        }
        ids
    }

    /// The usage of the period of `subscription_id` that starts at
    /// `period_start`, if there is such a period.
    pub fn get_period_usage(&self, subscription_id: Amount, period_start: u64) -> (r: Option<
        BillingPeriodUsage,
    >)
        requires
            self.wf(),
        ensures
            match r {
                Some(period) => self@.periods.contains_key((subscription_id, period_start))
                    && period@ == self@.periods[(subscription_id, period_start)],
                None => !self@.periods.contains_key((subscription_id, period_start)),
            },
    {
        match self.periods.get(&(subscription_id, period_start)) {
            Some(period) => Some(*period),
            None => None,
        }
    }

    /// The number of records.
    pub fn total_records(&self) -> (n: u64)
        ensures
            n == self@.records.len(),
    {
        assert(views(self.records@).len() == self.records@.len());
        self.records.len() as u64
    }

    /// Names the subscription registry. Only the owner may: anyone else is
    /// refused with `Unauthorized`.
    pub fn set_subscription_manager(&mut self, caller: Address, address: Address) -> (r: Result<
        (),
        Error,
    >)
        requires
            old(self).wf(),
        ensures
            final(self).wf(),
            r is Ok <==> caller == old(self)@.owner,
            r is Err ==> r == Err::<(), Error>(Error::Unauthorized) && final(self)@ == old(self)@,
            r is Ok ==> final(self)@ == (UsageMeterView {
                subscription_manager: Some(address),
                ..old(self)@
            }),
    {
        if caller != self.owner {
            return Err(Error::Unauthorized);
        }
        self.subscription_manager = Some(address);
        Ok(())
    }
}

} // verus!
