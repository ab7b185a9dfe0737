//! The billing engine: invoices made of a base price and metered usage,
//! settled exactly once, with a protocol fee taken out of what the merchant
//! receives.

use crate::accrual::{compute_fee, fee_for, lemma_fee_bounded};
use crate::amount::{max_amount, Amount};
use crate::error::Error;
use crate::identity::Address;
use crate::table::{distinct_keys, mapping, Record, Table};
use crate::tally::views;
use vstd::prelude::*;

verus! {

/// The highest protocol fee the owner can set, in basis points.
pub const MAX_PROTOCOL_FEE_BPS: u64 = 1000;

/// The protocol fee of a new engine, in basis points.
pub const DEFAULT_PROTOCOL_FEE_BPS: u64 = 100;

/// The payment method of an invoice paid from the payer's own funds, and of
/// one not paid yet.
pub const PAID_FROM_WALLET: u8 = 0;

/// The payment method of an invoice paid out of a stake position.
pub const PAID_FROM_STAKE: u8 = 1;

/// Where an invoice stands. Only a pending invoice can change.
#[derive(Clone, Copy, Debug, PartialEq, Eq, Structural)]
pub enum InvoiceStatus {
    Pending,
    Paid,
    Failed,
    Cancelled,
}

/// An invoice.
#[derive(Debug, PartialEq, Eq)]
pub struct Invoice {
    /// The number of the invoice, counted from one.
    pub id: Amount,
    /// The subscription billed.
    pub subscription_id: Amount,
    /// The plan of the subscription.
    pub plan_id: Amount,
    /// Who is to pay.
    pub subscriber: Address,
    /// Who is to be paid.
    pub merchant: Address,
    /// The base price of the period.
    pub base_amount: Amount,
    /// The price of the usage of the period.
    pub usage_amount: Amount,
    /// Base and usage together.
    pub total_amount: Amount,
    /// The units used in the period.
    pub usage_units: Amount,
    /// The start of the period billed.
    pub period_start: u64,
    /// The end of the period billed.
    pub period_end: u64,
    /// When the invoice was created.
    pub created_at: u64,
    /// When the invoice was paid; zero while it is not.
    pub paid_at: u64,
    /// How the invoice was paid.
    pub payment_method: u8,
    /// Where the invoice stands.
    pub status: InvoiceStatus,
    /// The reference of the payment, if one was noted.
    pub payment_tx: String,
}

/// An invoice with its amounts as natural numbers.
pub struct InvoiceView {
    pub id: Amount,
    pub subscription_id: Amount,
    pub plan_id: Amount,
    pub subscriber: Address,
    pub merchant: Address,
    pub base_amount: nat,
    pub usage_amount: nat,
    pub total_amount: nat,
    pub usage_units: nat,
    pub period_start: u64,
    pub period_end: u64,
    pub created_at: u64,
    pub paid_at: u64,
    pub payment_method: u8,
    pub status: InvoiceStatus,
    pub payment_tx: Seq<char>,
}

impl View for Invoice {
    type V = InvoiceView;

    open spec fn view(&self) -> InvoiceView {
        InvoiceView {
            id: self.id,
            subscription_id: self.subscription_id,
            plan_id: self.plan_id,
            subscriber: self.subscriber,
            merchant: self.merchant,
            base_amount: self.base_amount@,
            usage_amount: self.usage_amount@,
            total_amount: self.total_amount@,
            usage_units: self.usage_units@,
            period_start: self.period_start,
            period_end: self.period_end,
            created_at: self.created_at,
            paid_at: self.paid_at,
            payment_method: self.payment_method,
            status: self.status,
            payment_tx: self.payment_tx@,
        }
    }
}

impl Clone for Invoice {
    fn clone(&self) -> (r: Invoice)
        ensures
            r == *self,
    {
        Invoice {
            id: self.id,
            subscription_id: self.subscription_id,
            plan_id: self.plan_id,
            subscriber: self.subscriber,
            merchant: self.merchant,
            base_amount: self.base_amount,
            usage_amount: self.usage_amount,
            total_amount: self.total_amount,
            usage_units: self.usage_units,
            period_start: self.period_start,
            period_end: self.period_end,
            created_at: self.created_at,
            paid_at: self.paid_at,
            payment_method: self.payment_method,
            status: self.status,
            payment_tx: self.payment_tx.clone(),
        }
    }
}

impl InvoiceView {
    /// The invoice as it stands once paid at `now` by `method`.
    pub open spec fn paid(self, now: u64, method: u8) -> InvoiceView {
        InvoiceView { status: InvoiceStatus::Paid, paid_at: now, payment_method: method, ..self }
    }

    /// The invoice as it stands once failed.
    pub open spec fn failed(self) -> InvoiceView {
        InvoiceView { status: InvoiceStatus::Failed, ..self }
    }
}

/// Notice that an invoice was created.
#[derive(Clone, Copy, Debug, PartialEq, Eq, Structural)]
pub struct InvoiceCreated {
    pub invoice_id: Amount,
    pub subscription_id: Amount,
    pub total_amount: Amount,
}

/// Notice that an invoice was paid.
#[derive(Clone, Copy, Debug, PartialEq, Eq, Structural)]
pub struct InvoicePaid {
    pub invoice_id: Amount,
    pub amount: Amount,
    pub payment_method: u8,
}

/// Notice that an invoice has failed.
#[derive(Debug, PartialEq, Eq)]
pub struct InvoiceFailed {
    pub invoice_id: Amount,
    pub reason: String,
}

/// Notice that a payer's funds went to a merchant.
#[derive(Clone, Copy, Debug, PartialEq, Eq, Structural)]
pub struct PaymentProcessed {
    pub from: Address,
    pub to: Address,
    pub amount: Amount,
}

/// The record of a settlement: who paid which invoice, how much, how and
/// when. Records are appended and never changed.
#[derive(Clone, Copy, Debug, PartialEq, Eq, Structural)]
pub struct PaymentRecord {
    /// The number of the record, counted from one.
    pub id: Amount,
    /// The invoice that was settled.
    pub invoice_id: Amount,
    /// The account that paid.
    pub payer: Address,
    /// The amount settled: the total of the invoice.
    pub amount: Amount,
    /// How the invoice was paid.
    pub payment_method: u8,
    /// When the invoice was paid.
    pub paid_at: u64,
}

/// A record of a settlement with its amount as a natural number.
pub struct PaymentRecordView {
    pub id: Amount,
    pub invoice_id: Amount,
    pub payer: Address,
    pub amount: nat,
    pub payment_method: u8,
    pub paid_at: u64,
}

impl View for PaymentRecord {
    type V = PaymentRecordView;

    open spec fn view(&self) -> PaymentRecordView {
        PaymentRecordView {
            id: self.id,
            invoice_id: self.invoice_id,
            payer: self.payer,
            amount: self.amount@,
            payment_method: self.payment_method,
            paid_at: self.paid_at,
        }
    }
}

/// What the settlement of an invoice hands back: how the total splits into
/// the protocol fee and the merchant's part, who receives them, and the
/// notice to send.
#[derive(Clone, Copy, Debug, PartialEq, Eq, Structural)]
pub struct Settlement {
    /// The merchant, who receives `merchant_amount`.
    pub merchant: Address,
    /// The total less the fee.
    pub merchant_amount: Amount,
    /// The fee recipient, who receives `fee` unless it is zero.
    pub fee_recipient: Address,
    /// The protocol fee.
    pub fee: Amount,
    /// The notice that the invoice was paid.
    pub paid: InvoicePaid,
    /// The record that was appended.
    pub record: PaymentRecord,
}

/// The revenue of one merchant.
#[derive(Clone, Copy, Debug, PartialEq, Eq, Structural)]
pub struct Revenue {
    pub merchant: Address,
    pub total: Amount,
}

impl View for Revenue {
    type V = nat;

    open spec fn view(&self) -> nat {
        self.total@
    }
}

impl Record for Revenue {
    type Key = Address;

    open spec fn key(&self) -> Address {
        self.merchant
    }

    fn has_key(&self, key: &Address) -> (r: bool) {
        self.merchant == *key
    }

    fn same_key(&self, other: &Revenue) -> (r: bool) {
        self.merchant == other.merchant
    }
}

/// A way to pick invoices: by subscription, by payer or by merchant.
#[derive(Clone, Copy, Debug, PartialEq, Eq, Structural)]
pub enum InvoiceIndex {
    Subscription(Amount),
    Subscriber(Address),
    Merchant(Address),
}

impl InvoiceIndex {
    /// Whether the index lists `invoice`.
    pub open spec fn lists(self, invoice: InvoiceView) -> bool {
        match self {
            InvoiceIndex::Subscription(id) => invoice.subscription_id == id,
            InvoiceIndex::Subscriber(user) => invoice.subscriber == user,
            InvoiceIndex::Merchant(merchant) => invoice.merchant == merchant,
        }
    }

    /// Whether the index lists `invoice`.
    pub fn picks(&self, invoice: &Invoice) -> (r: bool)
        ensures
            r == self.lists(invoice@),
    {
        match self {
            InvoiceIndex::Subscription(id) => invoice.subscription_id == *id,
            InvoiceIndex::Subscriber(user) => invoice.subscriber == *user,
            InvoiceIndex::Merchant(merchant) => invoice.merchant == *merchant,
        }
    }
}

/// The numbers of the invoices among `invoices` that `index` lists, in
/// their order.
pub open spec fn invoice_ids(invoices: Seq<InvoiceView>, index: InvoiceIndex) -> Seq<Amount>
    decreases invoices.len(),
{
    if invoices.len() == 0 {
        Seq::empty()
    } else if index.lists(invoices.last()) {
        invoice_ids(invoices.drop_last(), index).push(invoices.last().id)
    } else {
        invoice_ids(invoices.drop_last(), index)
    }
}

/// The billing engine as a mathematical value.
pub struct BillingEngineView {
    /// The owner, who alone can configure the engine and fail invoices.
    pub owner: Address,
    /// The subscription registry the engine works with, once it is set.
    pub subscription_manager: Option<Address>,
    /// The usage meter the engine works with, once it is set.
    pub usage_meter: Option<Address>,
    /// The stake ledger that may settle invoices, once it is set.
    pub stake_to_pay: Option<Address>,
    /// The invoices, oldest first.
    pub invoices: Seq<InvoiceView>,
    /// The records of the settlements, oldest first.
    pub payments: Seq<PaymentRecordView>,
    /// What each merchant has received so far.
    pub revenue: Map<Address, nat>,
    /// The protocol fee, in basis points.
    pub protocol_fee_bps: u64,
    /// Who receives the protocol fee.
    pub fee_recipient: Address,
}

impl BillingEngineView {
    /// What holds of every engine: the fee is within its ceiling; the
    /// invoices are numbered from one; the total of each is its base and
    /// usage together; the records of settlements are numbered from one;
    /// each record names an invoice that is paid; no two records name the
    /// same invoice.
    pub open spec fn valid(self) -> bool {
        &&& self.protocol_fee_bps <= MAX_PROTOCOL_FEE_BPS
        &&& forall|i: int|
            0 <= i < self.invoices.len() ==> {
                &&& (#[trigger] self.invoices[i]).id@ == i + 1
                &&& self.invoices[i].total_amount == self.invoices[i].base_amount
                    + self.invoices[i].usage_amount
            }
        &&& forall|i: int|
            0 <= i < self.payments.len() ==> {
                &&& (#[trigger] self.payments[i]).id@ == i + 1
                &&& self.has_invoice(self.payments[i].invoice_id)
                &&& self.invoice(self.payments[i].invoice_id).status == InvoiceStatus::Paid
            }
        &&& forall|i: int, j: int|
            0 <= i < j < self.payments.len() ==> (#[trigger] self.payments[i]).invoice_id != (
            #[trigger] self.payments[j]).invoice_id
    }

    /// Whether the invoices and the records of settlements can be counted in
    /// 64 bits, and every total and every merchant's revenue fits in 256
    /// bits.
    pub open spec fn fits(self) -> bool {
        &&& self.invoices.len() <= u64::MAX
        &&& self.payments.len() <= u64::MAX
        &&& forall|i: int|
            0 <= i < self.invoices.len() ==> (#[trigger] self.invoices[i]).total_amount
                <= max_amount()
        &&& forall|merchant: Address| #[trigger]
            self.revenue.contains_key(merchant) ==> self.revenue[merchant] <= max_amount()
    }

    /// Whether an invoice has the number `invoice_id`.
    pub open spec fn has_invoice(self, invoice_id: Amount) -> bool {
        1 <= invoice_id@ <= self.invoices.len()
    }

    /// The invoice with the number `invoice_id`.
    pub open spec fn invoice(self, invoice_id: Amount) -> InvoiceView {
        self.invoices[invoice_id@ - 1]
    }

    /// What `merchant` has received so far; zero for one who has received
    /// nothing.
    pub open spec fn revenue_of(self, merchant: Address) -> nat {
        if self.revenue.contains_key(merchant) {
            self.revenue[merchant]
        } else {
            0
        }
    }

    /// Whether the invoice `invoice_id` can be settled within range:
    /// whether the revenue of its merchant still fits in 256 bits with it,
    /// and the record of the settlement can still be numbered.
    pub open spec fn settlement_fits(self, invoice_id: Amount) -> bool {
        &&& self.revenue_of(self.invoice(invoice_id).merchant) + self.invoice(
            invoice_id,
        ).total_amount - self.fee_on(invoice_id) <= max_amount()
        &&& self.payments.len() < u64::MAX
    }

    /// The record of the settlement of the invoice `invoice_id` at `now` by
    /// `method`, numbered after the records so far.
    pub open spec fn next_record(self, invoice_id: Amount, now: u64, method: u8) -> PaymentRecordView {
        PaymentRecordView {
            id: Amount::of(self.payments.len() + 1),
            invoice_id,
            payer: self.invoice(invoice_id).subscriber,
            amount: self.invoice(invoice_id).total_amount,
            payment_method: method,
            paid_at: now,
        }
    }

    /// The protocol fee on the invoice `invoice_id` at the current rate.
    pub open spec fn fee_on(self, invoice_id: Amount) -> nat {
        fee_for(self.invoice(invoice_id).total_amount, self.protocol_fee_bps as nat)
    }

    /// The invoice that `create_invoice` files: pending, numbered after the
    /// invoices so far, with the usage priced by the unit.
    pub open spec fn next_invoice(
        self,
        subscription_id: Amount,
        plan_id: Amount,
        subscriber: Address,
        merchant: Address,
        base_amount: nat,
        usage_price: nat,
        usage_units: nat,
        period_start: u64,
        period_end: u64,
        now: u64,
    ) -> InvoiceView {
        InvoiceView {
            id: Amount::of(self.invoices.len() + 1),
            subscription_id,
            plan_id,
            subscriber,
            merchant,
            base_amount,
            usage_amount: usage_price * usage_units,
            total_amount: base_amount + usage_price * usage_units,
            usage_units,
            period_start,
            period_end,
            created_at: now,
            paid_at: 0,
            payment_method: PAID_FROM_WALLET,
            status: InvoiceStatus::Pending,
            payment_tx: Seq::empty(),
        }
    }

    /// The engine with one more invoice.
    pub open spec fn create_invoice(self, invoice: InvoiceView) -> BillingEngineView {
        BillingEngineView { invoices: self.invoices.push(invoice), ..self }
    }

    /// The engine once the invoice `invoice_id` is paid at `now` by
    /// `method`: the invoice is marked, a record of the settlement is
    /// appended, and the merchant's revenue grows by the total less the fee.
    pub open spec fn settled(self, invoice_id: Amount, now: u64, method: u8) -> BillingEngineView {
        let invoice = self.invoice(invoice_id);
        BillingEngineView {
            invoices: self.invoices.update(invoice_id@ - 1, invoice.paid(now, method)),
            payments: self.payments.push(self.next_record(invoice_id, now, method)),
            revenue: self.revenue.insert(
                invoice.merchant,
                (self.revenue_of(invoice.merchant) + invoice.total_amount - self.fee_on(
                    invoice_id,
                )) as nat,
            ),
            ..self
        }
    }

    /// Payment of the invoice `invoice_id` by `caller`, who has attached
    /// `attached`, at `now`. Refused, in this order: an unknown invoice; one
    /// that is not pending; a caller who is not the subscriber; an attached
    /// value below the total.
    pub open spec fn pay_invoice(
        self,
        caller: Address,
        attached: nat,
        invoice_id: Amount,
        now: u64,
    ) -> Result<BillingEngineView, Error> {
        if !self.has_invoice(invoice_id) {
            Err(Error::NotFound)
        } else if self.invoice(invoice_id).status != InvoiceStatus::Pending {
            Err(Error::InvalidState)
        } else if self.invoice(invoice_id).subscriber != caller {
            Err(Error::Unauthorized)
        } else if attached < self.invoice(invoice_id).total_amount {
            Err(Error::InsufficientFunds)
        } else {
            Ok(self.settled(invoice_id, now, PAID_FROM_WALLET))
        }
    }

    /// Settlement of the invoice `invoice_id` on behalf of `payer` by
    /// `caller` at `now`, the funds having been drawn from a stake position.
    /// Refused, in this order: an invoice that is no longer pending, whoever
    /// asks; a caller who is not the stake ledger named to the engine; an
    /// unknown invoice; a payer who is not the subscriber.
    pub open spec fn pay_invoice_from_staking(
        self,
        caller: Address,
        invoice_id: Amount,
        payer: Address,
        now: u64,
    ) -> Result<BillingEngineView, Error> {
        if self.has_invoice(invoice_id) && self.invoice(invoice_id).status
            != InvoiceStatus::Pending {
            Err(Error::InvalidState)
        } else if self.stake_to_pay != Some(caller) {
            Err(Error::Unauthorized)
        } else if !self.has_invoice(invoice_id) {
            Err(Error::NotFound)
        } else if self.invoice(invoice_id).subscriber != payer {
            Err(Error::Unauthorized)
        } else {
            Ok(self.settled(invoice_id, now, PAID_FROM_STAKE))
        }
    }

    /// Failing the invoice `invoice_id`, which only the owner may do.
    /// Refused, in this order: an invoice that is no longer pending, whoever
    /// asks; a caller who is not the owner; an unknown invoice.
    pub open spec fn fail_invoice(self, caller: Address, invoice_id: Amount) -> Result<
        BillingEngineView,
        Error,
    > {
        if self.has_invoice(invoice_id) && self.invoice(invoice_id).status
            != InvoiceStatus::Pending {
            Err(Error::InvalidState)
        } else if caller != self.owner {
            Err(Error::Unauthorized)
        } else if !self.has_invoice(invoice_id) {
            Err(Error::NotFound)
        } else {
            Ok(
                BillingEngineView {
                    invoices: self.invoices.update(
                        invoice_id@ - 1,
                        self.invoice(invoice_id).failed(),
                    ),
                    ..self
                },
            )
        }
    }

    /// Setting the protocol fee, which only the owner may do, and only up to
    /// the ceiling.
    pub open spec fn set_protocol_fee_bps(self, caller: Address, fee_bps: u64) -> Result<
        BillingEngineView,
        Error,
    > {
        if caller != self.owner {
            Err(Error::Unauthorized)
        } else if fee_bps > MAX_PROTOCOL_FEE_BPS {
            Err(Error::InvalidParameter)
        } else {
            Ok(BillingEngineView { protocol_fee_bps: fee_bps, ..self })
        }
    }
}

/// The billing engine laid out in plain values, as it is kept between calls.
pub struct BillingEngineState {
    pub owner: Address,
    pub subscription_manager: Option<Address>,
    pub usage_meter: Option<Address>,
    pub stake_to_pay: Option<Address>,
    pub invoices: Vec<Invoice>,
    pub payments: Vec<PaymentRecord>,
    pub merchant_revenue: Vec<Revenue>,
    pub protocol_fee_bps: u64,
    pub fee_recipient: Address,
}

impl BillingEngineState {
    /// The engine that the values make up.
    pub open spec fn engine(&self) -> BillingEngineView {
        BillingEngineView {
            owner: self.owner,
            subscription_manager: self.subscription_manager,
            usage_meter: self.usage_meter,
            stake_to_pay: self.stake_to_pay,
            invoices: views(self.invoices@),
            payments: views(self.payments@),
            revenue: mapping(self.merchant_revenue@),
            protocol_fee_bps: self.protocol_fee_bps,
            fee_recipient: self.fee_recipient,
        }
    }

    /// Whether the values make up an engine: no merchant has two revenue
    /// entries, and the engine they make up is valid.
    pub open spec fn valid(&self) -> bool {
        &&& distinct_keys(self.merchant_revenue@)
        &&& self.engine().valid()
    }
}

/// The billing engine.
pub struct BillingEngine {
    owner: Address,
    subscription_manager: Option<Address>,
    usage_meter: Option<Address>,
    stake_to_pay: Option<Address>,
    invoices: Vec<Invoice>,
    payments: Vec<PaymentRecord>,
    merchant_revenue: Table<Revenue>,
    protocol_fee_bps: u64,
    fee_recipient: Address,
}

impl View for BillingEngine {
    type V = BillingEngineView;

    closed spec fn view(&self) -> BillingEngineView {
        BillingEngineView {
            owner: self.owner,
            subscription_manager: self.subscription_manager,
            usage_meter: self.usage_meter,
            stake_to_pay: self.stake_to_pay,
            invoices: views(self.invoices@),
            payments: views(self.payments@),
            revenue: self.merchant_revenue@,
            protocol_fee_bps: self.protocol_fee_bps,
            fee_recipient: self.fee_recipient,
        }
    }
}

impl BillingEngine {
    /// The invariant of the engine: no merchant has two revenue entries, and
    /// the view is valid.
    pub closed spec fn wf(&self) -> bool {
        &&& self.merchant_revenue.wf()
        &&& self@.valid()
    }

    /// A well-formed engine has a valid view that fits.
    pub proof fn lemma_valid(&self)
        requires
            self.wf(),
        ensures
            self@.valid(),
            self@.fits(),
    {
        assert(self.invoices.len() <= usize::MAX);
        assert(self.payments.len() <= usize::MAX);
        assert forall|i: int| 0 <= i < self@.invoices.len() implies (
        #[trigger] self@.invoices[i]).total_amount <= max_amount() by {
            self.invoices@[i].total_amount.lemma_bounded();
        }
        assert forall|merchant: Address| #[trigger]
            self@.revenue.contains_key(merchant) implies self@.revenue[merchant]
            <= max_amount() by {
            let i = crate::table::place_of(self.merchant_revenue.rows(), merchant)->Some_0;
            self.merchant_revenue.rows()[i].total.lemma_bounded();
        }
    }

    /// The engine that `state` makes up, or `None` when it makes up none.
    pub fn from_state(state: BillingEngineState) -> (r: Option<BillingEngine>)
        ensures
            match r {
                Some(engine) => state.valid() && engine.wf() && engine@ == state.engine(),
                None => !state.valid(),
            },
    {
        if state.protocol_fee_bps > MAX_PROTOCOL_FEE_BPS {
            return None;
        }
        let ghost filed = views(state.invoices@);
        let mut i: usize = 0;
        while i < state.invoices.len()
            invariant
                i <= state.invoices.len(),
                filed == views(state.invoices@),
                forall|j: int|
                    0 <= j < i ==> {
                        &&& (#[trigger] filed[j]).id@ == j + 1
                        &&& filed[j].total_amount == filed[j].base_amount + filed[j].usage_amount
                    },
            decreases state.invoices.len() - i,
        {
            let invoice = &state.invoices[i];
            assert(filed[i as int] == invoice@);
            proof {
                invoice.id.lemma_of((i + 1) as u64);
            }
            if invoice.id != Amount::from_u64((i as u64) + 1) {
                return None;
            }
            match invoice.base_amount.checked_add(invoice.usage_amount) {
                Some(sum) => {
                    proof {
                        if sum@ == invoice.total_amount@ {
                            sum.lemma_view_injective(invoice.total_amount);
                        }
                    }
                    if sum != invoice.total_amount {
                        return None;
                    }
                },
                None => {
                    proof {
                        invoice.total_amount.lemma_bounded();
                    }
                    return None;
                },
            }
            i += 1;
        }
        let ghost recorded = views(state.payments@);
        let ghost engine = state.engine();
        let mut k: usize = 0;
        while k < state.payments.len()
            invariant
                k <= state.payments.len(),
                recorded == views(state.payments@),
                filed == views(state.invoices@),
                engine == state.engine(),
                forall|j: int|
                    0 <= j < k ==> {
                        &&& (#[trigger] recorded[j]).id@ == j + 1
                        &&& engine.has_invoice(recorded[j].invoice_id)
                        &&& engine.invoice(recorded[j].invoice_id).status == InvoiceStatus::Paid
                    },
                forall|a: int, b: int|
                    0 <= a < b < k ==> (#[trigger] recorded[a]).invoice_id != (
                    #[trigger] recorded[b]).invoice_id,
            decreases state.payments.len() - k,
        {
            assert(recorded[k as int] == state.payments@[k as int]@);
            let record = &state.payments[k];
            proof {
                record.id.lemma_of((k + 1) as u64);
            }
            if record.id != Amount::from_u64((k as u64) + 1) {
                return None;
            }
            assert(state.invoices.len() <= usize::MAX);
            let number = match record.invoice_id.to_u64() {
                Some(number) => number,
                None => {
                    return None;
                },
            };
            if number == 0 || number > state.invoices.len() as u64 {
                return None;
            }
            let place: usize = (number - 1) as usize;
            assert(filed[place as int] == state.invoices@[place as int]@);
            if state.invoices[place].status != InvoiceStatus::Paid {
                return None;
            }
            let mut j: usize = 0;
            while j < k
                invariant
                    j <= k,
                    k < state.payments.len(),
                    recorded == views(state.payments@),
                    forall|b: int|
                        0 <= b < j ==> (#[trigger] recorded[b]).invoice_id
                            != recorded[k as int].invoice_id,
                decreases k - j,
            {
                assert(recorded[j as int] == state.payments@[j as int]@);
                assert(recorded[k as int] == state.payments@[k as int]@);
                if state.payments[j].invoice_id == state.payments[k].invoice_id {
                    return None;
                }
                j += 1;
            }
            k += 1;
        }
        let merchant_revenue = match Table::from_rows(state.merchant_revenue) {
            Some(table) => table,
            None => {
                return None;
            },
        };
        Some(
            BillingEngine {
                owner: state.owner,
                subscription_manager: state.subscription_manager,
                usage_meter: state.usage_meter,
                stake_to_pay: state.stake_to_pay,
                invoices: state.invoices,
                payments: state.payments,
                merchant_revenue,
                protocol_fee_bps: state.protocol_fee_bps,
                fee_recipient: state.fee_recipient,
            },
        )
    }

    /// The engine laid out in plain values.
    pub fn into_state(self) -> (state: BillingEngineState)
        requires
            self.wf(),
        ensures
            state.valid(),
            state.engine() == self@,
    {
        BillingEngineState {
            owner: self.owner,
            subscription_manager: self.subscription_manager,
            usage_meter: self.usage_meter,
            stake_to_pay: self.stake_to_pay,
            invoices: self.invoices,
            payments: self.payments,
            merchant_revenue: self.merchant_revenue.into_rows(),
            protocol_fee_bps: self.protocol_fee_bps,
            fee_recipient: self.fee_recipient,
        }
    }

    /// A new engine, owned by `caller`, who also receives the fees: no
    /// invoices, no revenue, the default fee.
    pub fn init(caller: Address) -> (engine: BillingEngine)
        ensures
            engine.wf(),
            engine@ == (BillingEngineView {
                owner: caller,
                subscription_manager: None,
                usage_meter: None,
                stake_to_pay: None,
                invoices: Seq::empty(),
                payments: Seq::empty(),
                revenue: Map::empty(),
                protocol_fee_bps: DEFAULT_PROTOCOL_FEE_BPS,
                fee_recipient: caller,
            }),
    {
        let engine = BillingEngine {
            owner: caller,
            subscription_manager: None,
            usage_meter: None,
            stake_to_pay: None,
            invoices: Vec::new(),
            payments: Vec::new(),
            merchant_revenue: Table::new(),
            protocol_fee_bps: DEFAULT_PROTOCOL_FEE_BPS,
            fee_recipient: caller,
        };
        assert(views(engine.invoices@) =~= Seq::<InvoiceView>::empty());
        assert(views(engine.payments@) =~= Seq::<PaymentRecordView>::empty());
        engine
    }

    /// Files an invoice for a billing period of a subscription: the usage is
    /// priced at `usage_price` a unit, the total is base and usage together,
    /// and the invoice is pending. Returns the notice, which holds the
    /// number of the invoice.
    pub fn create_invoice(
        &mut self,
        subscription_id: Amount,
        plan_id: Amount,
        subscriber: Address,
        merchant: Address,
        base_amount: Amount,
        usage_price: Amount,
        usage_units: Amount,
        period_start: u64,
        period_end: u64,
        now: u64,
    ) -> (created: InvoiceCreated)
        requires
            old(self).wf(),
            base_amount@ + usage_price@ * usage_units@ <= max_amount(),
            old(self)@.invoices.len() < u64::MAX,
        ensures
            final(self).wf(),
            final(self)@ == old(self)@.create_invoice(
                old(self)@.next_invoice(
                    subscription_id,
                    plan_id,
                    subscriber,
                    merchant,
                    base_amount@,
                    usage_price@,
                    usage_units@,
                    period_start,
                    period_end,
                    now,
                ),
            ),
            created.invoice_id@ == old(self)@.invoices.len() + 1,
            created.subscription_id == subscription_id,
            created.total_amount@ == base_amount@ + usage_price@ * usage_units@,
    {
        let invoice_id = Amount::from_u64((self.invoices.len() as u64) + 1);
        let usage_amount = usage_price.checked_mul(usage_units).unwrap();
        let total_amount = base_amount.checked_add(usage_amount).unwrap();
        let invoice = Invoice {
            id: invoice_id,
            subscription_id,
            plan_id,
            subscriber,
            merchant,
            base_amount,
            usage_amount,
            total_amount,
            usage_units,
            period_start,
            period_end,
            created_at: now,
            paid_at: 0,
            payment_method: PAID_FROM_WALLET,
            status: InvoiceStatus::Pending,
            payment_tx: String::new(),
        };
        let ghost filed = self.invoices@;
        let ghost entry = invoice@;
        self.invoices.push(invoice);
        proof {
            assert(views(self.invoices@) =~= views(filed).push(entry));
        }
        InvoiceCreated { invoice_id, subscription_id, total_amount }
    }

    /// The place of the invoice `invoice_id`, if there is such an invoice.
    fn place_of_invoice(&self, invoice_id: Amount) -> (r: Option<usize>)
        ensures
            match r {
                Some(i) => self@.has_invoice(invoice_id) && i == invoice_id@ - 1 && i
                    < self.invoices@.len(),
                None => !self@.has_invoice(invoice_id),
            },
    {
        assert(views(self.invoices@).len() == self.invoices@.len());
        assert(self.invoices.len() <= usize::MAX);
        match invoice_id.to_u64() {
            Some(number) => if number == 0 || number > self.invoices.len() as u64 {
                None
            } else {
                Some((number - 1) as usize)
            },
            None => None,
        }
    }

    /// Marks the pending invoice at `place` as paid at `now` by `method` and
    /// credits the merchant with the total less the fee.
    fn settle(&mut self, invoice_id: Amount, now: u64, method: u8) -> (r: Settlement)
        requires
            old(self).wf(),
            old(self)@.has_invoice(invoice_id),
            old(self)@.invoice(invoice_id).status == InvoiceStatus::Pending,
            old(self)@.settlement_fits(invoice_id),
        ensures
            final(self).wf(),
            final(self)@ == old(self)@.settled(invoice_id, now, method),
            r.merchant == old(self)@.invoice(invoice_id).merchant,
            r.fee_recipient == old(self)@.fee_recipient,
            r.fee@ == old(self)@.fee_on(invoice_id),
            r.fee@ + r.merchant_amount@ == old(self)@.invoice(invoice_id).total_amount,
            r.paid.invoice_id == invoice_id,
            r.paid.amount@ == old(self)@.invoice(invoice_id).total_amount,
            r.paid.payment_method == method,
            r.record@ == old(self)@.next_record(invoice_id, now, method),
    {
        assert(views(self.invoices@).len() == self.invoices@.len());
        let ghost before = self@;
        let place = self.place_of_invoice(invoice_id).unwrap();
        let mut invoice = self.invoices[place].clone();
        let total = invoice.total_amount;
        let merchant = invoice.merchant;
        assert(views(self.payments@).len() == self.payments@.len());
        let record = PaymentRecord {
            id: Amount::from_u64((self.payments.len() as u64) + 1),
            invoice_id,
            payer: invoice.subscriber,
            amount: total,
            payment_method: method,
            paid_at: now,
        };
        let fee = compute_fee(total, self.protocol_fee_bps);
        let merchant_amount = total.checked_sub(fee).unwrap();
        invoice.status = InvoiceStatus::Paid;
        invoice.paid_at = now;
        invoice.payment_method = method;
        proof {
            self.lemma_valid();
        }
        match self.merchant_revenue.find(&merchant) {
            Some(i) => {
                let so_far = self.merchant_revenue.row(i).total;
                let credited = so_far.checked_add(merchant_amount).unwrap();
                self.merchant_revenue.replace(i, Revenue { merchant, total: credited });
            },
            None => {
                self.merchant_revenue.append(Revenue { merchant, total: merchant_amount });
            },
        }
        let ghost filed = self.invoices@;
        let ghost entry = invoice@;
        self.invoices.set(place, invoice);
        let ghost recorded = self.payments@;
        self.payments.push(record);
        proof {
            assert(views(self.invoices@) =~= views(filed).update(place as int, entry));
            assert(views(self.payments@) =~= views(recorded).push(record@));
            lemma_settled_valid(before, invoice_id, now, method);
        }
        Settlement {
            merchant,
            merchant_amount,
            fee_recipient: self.fee_recipient,
            fee,
            paid: InvoicePaid { invoice_id, amount: total, payment_method: method },
            record,
        }
    }

    /// Pays the invoice `invoice_id` out of the `attached` funds of
    /// `caller` at `now`. The total splits into the protocol fee and the
    /// merchant's part; the invoice becomes paid and the merchant's revenue
    /// grows by the merchant's part. Fails, in this order, with `NotFound`
    /// for an unknown invoice, `InvalidState` for one that is not pending,
    /// `Unauthorized` for a caller who is not the subscriber, and
    /// `InsufficientFunds` for an attached value below the total.
    pub fn pay_invoice(
        &mut self,
        caller: Address,
        attached: Amount,
        invoice_id: Amount,
        now: u64,
    ) -> (r: Result<(Settlement, PaymentProcessed), Error>)
        requires
            old(self).wf(),
            old(self)@.pay_invoice(caller, attached@, invoice_id, now) is Ok
                ==> old(self)@.settlement_fits(invoice_id),
        ensures
            final(self).wf(),
            match r {
                Ok((settlement, processed)) => {
                    &&& old(self)@.pay_invoice(caller, attached@, invoice_id, now) == Ok::<
                        BillingEngineView,
                        Error,
                    >(final(self)@)
                    &&& settlement.merchant == old(self)@.invoice(invoice_id).merchant
                    &&& settlement.fee_recipient == old(self)@.fee_recipient
                    &&& settlement.fee@ == old(self)@.fee_on(invoice_id)
                    &&& settlement.fee@ + settlement.merchant_amount@ == old(self)@.invoice(
                        invoice_id,
                    ).total_amount
                    &&& settlement.paid.invoice_id == invoice_id
                    &&& settlement.paid.amount@ == old(self)@.invoice(invoice_id).total_amount
                    &&& settlement.paid.payment_method == PAID_FROM_WALLET
                    &&& settlement.record@ == old(self)@.next_record(
                        invoice_id,
                        now,
                        PAID_FROM_WALLET,
                    )
                    &&& processed.from == caller
                    &&& processed.to == settlement.merchant
                    &&& processed.amount == settlement.merchant_amount
                },
                Err(e) => {
                    &&& old(self)@.pay_invoice(caller, attached@, invoice_id, now) == Err::<
                        BillingEngineView,
                        Error,
                    >(e)
                    &&& final(self)@ == old(self)@
                },
            },
    {
        let place = match self.place_of_invoice(invoice_id) {
            Some(i) => i,
            None => {
                return Err(Error::NotFound);
            },
        };
        if self.invoices[place].status != InvoiceStatus::Pending {
            return Err(Error::InvalidState);
        }
        if self.invoices[place].subscriber != caller {
            return Err(Error::Unauthorized);
        }
        if attached.lt(&self.invoices[place].total_amount) {
            return Err(Error::InsufficientFunds);
        }
        let settlement = self.settle(invoice_id, now, PAID_FROM_WALLET);
        let processed = PaymentProcessed {
            from: caller,
            to: settlement.merchant,
            amount: settlement.merchant_amount,
        };
        Ok((settlement, processed))
    }

    /// Settles the invoice `invoice_id` on behalf of `payer` at `now`, the
    /// funds having been drawn from a stake position; `caller` must be the
    /// stake ledger named to the engine. The invoice becomes paid and the
    /// merchant's revenue grows by the total less the fee; no funds are to
    /// be moved by the engine. Fails, in this order, with `InvalidState` for
    /// an invoice that is no longer pending, whoever asks; `Unauthorized`
    /// for a caller who is not the stake ledger named to the engine;
    /// `NotFound` for an unknown invoice; `Unauthorized` for a payer who is
    /// not the subscriber.
    pub fn pay_invoice_from_staking(
        &mut self,
        caller: Address,
        invoice_id: Amount,
        payer: Address,
        now: u64,
    ) -> (r: Result<Settlement, Error>)
        requires
            old(self).wf(),
            old(self)@.pay_invoice_from_staking(caller, invoice_id, payer, now) is Ok
                ==> old(self)@.settlement_fits(invoice_id),
        ensures
            final(self).wf(),
            match r {
                Ok(settlement) => {
                    &&& old(self)@.pay_invoice_from_staking(caller, invoice_id, payer, now)
                        == Ok::<BillingEngineView, Error>(final(self)@)
                    &&& settlement.merchant == old(self)@.invoice(invoice_id).merchant
                    &&& settlement.fee_recipient == old(self)@.fee_recipient
                    &&& settlement.fee@ == old(self)@.fee_on(invoice_id)
                    &&& settlement.fee@ + settlement.merchant_amount@ == old(self)@.invoice(
                        invoice_id,
                    ).total_amount
                    &&& settlement.paid.invoice_id == invoice_id
                    &&& settlement.paid.amount@ == old(self)@.invoice(invoice_id).total_amount
                    &&& settlement.paid.payment_method == PAID_FROM_STAKE
                    &&& settlement.record@ == old(self)@.next_record(
                        invoice_id,
                        now,
                        PAID_FROM_STAKE,
                    )
                },
                Err(e) => {
                    &&& old(self)@.pay_invoice_from_staking(caller, invoice_id, payer, now)
                        == Err::<BillingEngineView, Error>(e)
                    &&& final(self)@ == old(self)@
                },
            },
    {
        let found = self.place_of_invoice(invoice_id);
        if let Some(i) = found {
            if self.invoices[i].status != InvoiceStatus::Pending {
                return Err(Error::InvalidState);
            }
        }
        let trusted = match self.stake_to_pay {
            Some(ledger) => ledger == caller,
            None => false,
        };
        if !trusted {
            return Err(Error::Unauthorized);
        }
        let place = match found {
            Some(i) => i,
            None => {
                return Err(Error::NotFound);
            },
        };
        if self.invoices[place].subscriber != payer {
            return Err(Error::Unauthorized);
        }
        Ok(self.settle(invoice_id, now, PAID_FROM_STAKE))
    }

    /// Marks the invoice `invoice_id` as failed, for the `reason` given. No
    /// funds move. Fails, in this order, with `InvalidState` for an invoice
    /// that is no longer pending, whoever asks; `Unauthorized` for a caller
    /// who is not the owner; `NotFound` for an unknown invoice.
    pub fn fail_invoice(&mut self, caller: Address, invoice_id: Amount, reason: String) -> (r: Result<
        InvoiceFailed,
        Error,
    >)
        requires
            old(self).wf(),
        ensures
            final(self).wf(),
            match r {
                Ok(notice) => {
                    &&& old(self)@.fail_invoice(caller, invoice_id) == Ok::<
                        BillingEngineView,
                        Error,
                    >(final(self)@)
                    &&& notice.invoice_id == invoice_id
                    &&& notice.reason == reason
                },
                Err(e) => {
                    &&& old(self)@.fail_invoice(caller, invoice_id) == Err::<
                        BillingEngineView,
                        Error,
                    >(e)
                    &&& final(self)@ == old(self)@
                },
            },
    {
        let found = self.place_of_invoice(invoice_id);
        if let Some(i) = found {
            if self.invoices[i].status != InvoiceStatus::Pending {
                return Err(Error::InvalidState);
            }
        }
        if caller != self.owner {
            return Err(Error::Unauthorized);
        }
        let place = match found {
            Some(i) => i,
            None => {
                return Err(Error::NotFound);
            },
        };
        let mut invoice = self.invoices[place].clone();
        invoice.status = InvoiceStatus::Failed;
        let ghost filed = self.invoices@;
        let ghost entry = invoice@;
        self.invoices.set(place, invoice);
        proof {
            assert(views(self.invoices@) =~= views(filed).update(place as int, entry));
        }
        Ok(InvoiceFailed { invoice_id, reason })
    }

    /// Whether a payment of the invoice `invoice_id` by `caller`, who has
    /// attached `attached`, stays in range: true unless the payment would be
    /// accepted and the settlement would not fit.
    pub fn payment_in_range(&self, caller: Address, attached: Amount, invoice_id: Amount) -> (r:
        bool)
        requires
            self.wf(),
        ensures
            forall|now: u64|
                r == (#[trigger] self@.pay_invoice(caller, attached@, invoice_id, now) is Ok
                    ==> self@.settlement_fits(invoice_id)),
    {
        if self.settlement_fits(invoice_id) {
            return true;
        }
        match self.place_of_invoice(invoice_id) {
            Some(i) => {
                assert(views(self.invoices@)[i as int] == self.invoices@[i as int]@);
                self.invoices[i].status != InvoiceStatus::Pending || self.invoices[i].subscriber
                    != caller || attached.lt(&self.invoices[i].total_amount)
            },
            None => true,
        }
    }

    /// Whether a settlement of the invoice `invoice_id` on behalf of
    /// `payer` by `caller` stays in range: true unless the settlement would
    /// be accepted and would not fit.
    pub fn settlement_in_range(&self, caller: Address, invoice_id: Amount, payer: Address) -> (r:
        bool)
        requires
            self.wf(),
        ensures
            forall|now: u64|
                r == (#[trigger] self@.pay_invoice_from_staking(caller, invoice_id, payer, now)
                    is Ok ==> self@.settlement_fits(invoice_id)),
    {
        if self.settlement_fits(invoice_id) {
            return true;
        }
        let trusted = match self.stake_to_pay {
            Some(ledger) => ledger == caller,
            None => false,
        };
        match self.place_of_invoice(invoice_id) {
            Some(i) => {
                assert(views(self.invoices@)[i as int] == self.invoices@[i as int]@);
                self.invoices[i].status != InvoiceStatus::Pending || !trusted
                    || self.invoices[i].subscriber != payer
            },
            None => true,
        }
    }

    /// Whether the revenue of the merchant of the invoice `invoice_id`
    /// still fits in 256 bits once the invoice is settled. True for an
    /// unknown invoice.
    pub fn settlement_fits(&self, invoice_id: Amount) -> (r: bool)
        requires
            self.wf(),
        ensures
            r == (self@.has_invoice(invoice_id) ==> self@.settlement_fits(invoice_id)),
    {
        let place = match self.place_of_invoice(invoice_id) {
            Some(i) => i,
            None => {
                return true;
            },
        };
        assert(views(self.invoices@)[place as int] == self.invoices@[place as int]@);
        let total = self.invoices[place].total_amount;
        let fee = compute_fee(total, self.protocol_fee_bps);
        let merchant_amount = total.checked_sub(fee).unwrap();
        let so_far = self.get_merchant_revenue(self.invoices[place].merchant);
        assert(views(self.payments@).len() == self.payments@.len());
        so_far.checked_add(merchant_amount).is_some() && (self.payments.len() as u64) < u64::MAX
    }

    /// The invoice `invoice_id`, if there is such an invoice.
    pub fn get_invoice(&self, invoice_id: Amount) -> (r: Option<Invoice>)
        ensures
            match r {
                Some(invoice) => self@.has_invoice(invoice_id) && invoice@ == self@.invoice(
                    invoice_id,
                ),
                None => !self@.has_invoice(invoice_id),
            },
    {
        match self.place_of_invoice(invoice_id) {
            Some(i) => Some(self.invoices[i].clone()),
            None => None,
        }
    }

    /// The numbers of the invoices that `index` lists, oldest first.
    pub fn list_invoices(&self, index: InvoiceIndex) -> (ids: Vec<Amount>)
        ensures
            ids@ == invoice_ids(self@.invoices, index),
    {
        let mut ids: Vec<Amount> = Vec::new();
        let mut i: usize = 0;
        while i < self.invoices.len()
            invariant
                i <= self.invoices.len(),
                ids@ == invoice_ids(views(self.invoices@).take(i as int), index),
            decreases self.invoices.len() - i,
        {
            proof {
                let seen = views(self.invoices@).take(i as int + 1);
                assert(seen.drop_last() =~= views(self.invoices@).take(i as int));
            }
            if index.picks(&self.invoices[i]) {
                ids.push(self.invoices[i].id);
            }
            i += 1;
        }
        proof {
            assert(views(self.invoices@).take(i as int) =~= views(self.invoices@));
        }
        ids
    }

    /// The numbers of the invoices of a subscription, oldest first.
    pub fn get_subscription_invoices(&self, subscription_id: Amount) -> (ids: Vec<Amount>)
        ensures
            ids@ == invoice_ids(self@.invoices, InvoiceIndex::Subscription(subscription_id)),
    {
        self.list_invoices(InvoiceIndex::Subscription(subscription_id))
    }

    /// The numbers of the invoices that `user` is to pay, oldest first.
    pub fn get_user_invoices(&self, user: Address) -> (ids: Vec<Amount>)
        ensures
            ids@ == invoice_ids(self@.invoices, InvoiceIndex::Subscriber(user)),
    {
        self.list_invoices(InvoiceIndex::Subscriber(user))
    }

    /// The numbers of the invoices in favour of `merchant`, oldest first.
    pub fn get_merchant_invoices(&self, merchant: Address) -> (ids: Vec<Amount>)
        ensures
            ids@ == invoice_ids(self@.invoices, InvoiceIndex::Merchant(merchant)),
    {
        self.list_invoices(InvoiceIndex::Merchant(merchant))
    }

    /// What `merchant` has received so far; zero for one who has received
    /// nothing.
    pub fn get_merchant_revenue(&self, merchant: Address) -> (r: Amount)
        requires
            self.wf(),
        ensures
            r@ == self@.revenue_of(merchant),
    {
        match self.merchant_revenue.get(&merchant) {
            Some(revenue) => revenue.total,
            None => Amount::zero(),
        }
    }

    /// The record of a settlement with the number `record_id`, if there is
    /// one.
    pub fn get_payment_record(&self, record_id: Amount) -> (r: Option<PaymentRecord>)
        ensures
            match r {
                Some(record) => 1 <= record_id@ <= self@.payments.len() && record@
                    == self@.payments[record_id@ - 1],
                None => record_id@ == 0 || record_id@ > self@.payments.len(),
            },
    {
        assert(views(self.payments@).len() == self.payments@.len());
        assert(self.payments.len() <= usize::MAX);
        let number = match record_id.to_u64() {
            Some(number) => number,
            None => {
                return None;
            },
        };
        if number == 0 || number > self.payments.len() as u64 {
            return None;
        }
        let place: usize = (number - 1) as usize;
        Some(self.payments[place])
    }

    /// The number of records of settlements.
    pub fn total_payment_records(&self) -> (n: u64)
        ensures
            n == self@.payments.len(),
    {
        assert(views(self.payments@).len() == self.payments@.len());
        self.payments.len() as u64
    }

    /// The number of invoices.
    pub fn total_invoices(&self) -> (n: u64)
        ensures
            n == self@.invoices.len(),
    {
        assert(views(self.invoices@).len() == self.invoices@.len());
        self.invoices.len() as u64
    }

    /// The protocol fee, in basis points.
    pub fn get_protocol_fee_bps(&self) -> (r: u64)
        ensures
            r == self@.protocol_fee_bps,
    {
        self.protocol_fee_bps
    }

    /// Who receives the protocol fee.
    pub fn get_fee_recipient(&self) -> (r: Address)
        ensures
            r == self@.fee_recipient,
    {
        self.fee_recipient
    }

    /// Names the subscription registry. Only the owner may: anyone else is
    /// refused with `Unauthorized`.
    pub fn set_subscription_manager(&mut self, caller: Address, address: Address) -> (r: Result<
        (),
        Error,
    >)
        requires
            old(self).wf(),
        ensures
            final(self).wf(),
            r is Ok <==> caller == old(self)@.owner,
            r is Err ==> r == Err::<(), Error>(Error::Unauthorized) && final(self)@ == old(self)@,
            r is Ok ==> final(self)@ == (BillingEngineView {
                subscription_manager: Some(address),
                ..old(self)@
            }),
    {
        if caller != self.owner {
            return Err(Error::Unauthorized);
        }
        self.subscription_manager = Some(address);
        Ok(())
    }

    /// Names the usage meter. Only the owner may: anyone else is refused
    /// with `Unauthorized`.
    pub fn set_usage_meter(&mut self, caller: Address, address: Address) -> (r: Result<(), Error>)
        requires
            old(self).wf(),
        ensures
            final(self).wf(),
            r is Ok <==> caller == old(self)@.owner,
            r is Err ==> r == Err::<(), Error>(Error::Unauthorized) && final(self)@ == old(self)@,
            r is Ok ==> final(self)@ == (BillingEngineView {
                usage_meter: Some(address),
                ..old(self)@
            }),
    {
        if caller != self.owner {
            return Err(Error::Unauthorized);
        }
        self.usage_meter = Some(address);
        Ok(())
    }

    /// Names the stake ledger that may settle invoices. Only the owner may:
    /// anyone else is refused with `Unauthorized`.
    pub fn set_stake_to_pay(&mut self, caller: Address, address: Address) -> (r: Result<(), Error>)
        requires
            old(self).wf(),
        ensures
            final(self).wf(),
            r is Ok <==> caller == old(self)@.owner,
            r is Err ==> r == Err::<(), Error>(Error::Unauthorized) && final(self)@ == old(self)@,
            r is Ok ==> final(self)@ == (BillingEngineView {
                stake_to_pay: Some(address),
                ..old(self)@
            }),
    {
        if caller != self.owner {
            return Err(Error::Unauthorized);
        }
        self.stake_to_pay = Some(address);
        Ok(())
    }

    /// Sets the protocol fee. Only the owner may: anyone else is refused
    /// with `Unauthorized`. A fee above the ceiling is refused with
    /// `InvalidParameter`.
    pub fn set_protocol_fee_bps(&mut self, caller: Address, fee_bps: u64) -> (r: Result<(), Error>)
        requires
            old(self).wf(),
        ensures
            final(self).wf(),
            match r {
                Ok(_) => old(self)@.set_protocol_fee_bps(caller, fee_bps) == Ok::<
                    BillingEngineView,
                    Error,
                >(final(self)@),
                Err(e) => {
                    &&& old(self)@.set_protocol_fee_bps(caller, fee_bps) == Err::<
                        BillingEngineView,
                        Error,
                    >(e)
                    &&& final(self)@ == old(self)@
                },
            },
    {
        if caller != self.owner {
            return Err(Error::Unauthorized);
        }
        if fee_bps > MAX_PROTOCOL_FEE_BPS {
            return Err(Error::InvalidParameter);
        }
        self.protocol_fee_bps = fee_bps;
        Ok(())
    }

    /// Names who receives the protocol fee. Only the owner may: anyone else
    /// is refused with `Unauthorized`.
    pub fn set_fee_recipient(&mut self, caller: Address, recipient: Address) -> (r: Result<
        (),
        Error,
    >)
        requires
            old(self).wf(),
        ensures
            final(self).wf(),
            r is Ok <==> caller == old(self)@.owner,
            r is Err ==> r == Err::<(), Error>(Error::Unauthorized) && final(self)@ == old(self)@,
            r is Ok ==> final(self)@ == (BillingEngineView {
                fee_recipient: recipient,
                ..old(self)@
            }),
    {
        if caller != self.owner {
            return Err(Error::Unauthorized);
        }
        self.fee_recipient = recipient;
        Ok(())
    }
}

impl BillingEngineView {
    /// Whether the invoice `invoice_id` stands settled or failed for good:
    /// every attempt to pay, settle or fail it is refused with
    /// `InvalidState`, whoever makes it and whenever.
    pub open spec fn is_closed(self, invoice_id: Amount) -> bool {
        &&& forall|caller: Address, attached: nat, now: u64| #[trigger]
            self.pay_invoice(caller, attached, invoice_id, now) == Err::<
                BillingEngineView,
                Error,
            >(Error::InvalidState)
        &&& forall|caller: Address, payer: Address, now: u64| #[trigger]
            self.pay_invoice_from_staking(caller, invoice_id, payer, now) == Err::<
                BillingEngineView,
                Error,
            >(Error::InvalidState)
        &&& forall|caller: Address| #[trigger]
            self.fail_invoice(caller, invoice_id) == Err::<BillingEngineView, Error>(
                Error::InvalidState,
            )
    }

    /// Whether `next` has the same invoices as `self` but for the one
    /// numbered `invoice_id`.
    pub open spec fn same_invoices_but(self, next: BillingEngineView, invoice_id: Amount) -> bool {
        &&& next.invoices.len() == self.invoices.len()
        &&& forall|i: int|
            0 <= i < self.invoices.len() && i != invoice_id@ - 1 ==> #[trigger] next.invoices[i]
                == self.invoices[i]
    }
}

/// Settling a pending invoice keeps an engine valid: the new record names
/// an invoice that no record named before.
pub proof fn lemma_settled_valid(engine: BillingEngineView, invoice_id: Amount, now: u64, method: u8)
    requires
        engine.valid(),
        engine.has_invoice(invoice_id),
        engine.invoice(invoice_id).status == InvoiceStatus::Pending,
        engine.payments.len() < u64::MAX,
    ensures
        engine.settled(invoice_id, now, method).valid(),
{
    let next = engine.settled(invoice_id, now, method);
    let n = engine.payments.len() as int;
    invoice_id.lemma_of((n + 1) as u64);
    assert forall|i: int| 0 <= i < next.payments.len() implies {
        &&& (#[trigger] next.payments[i]).id@ == i + 1
        &&& next.has_invoice(next.payments[i].invoice_id)
        &&& next.invoice(next.payments[i].invoice_id).status == InvoiceStatus::Paid
    } by {
        if i < n {
            assert(next.payments[i] == engine.payments[i]);
            assert(engine.payments[i].invoice_id != invoice_id);
        }
    }
    assert forall|i: int, j: int| 0 <= i < j < next.payments.len() implies (
    #[trigger] next.payments[i]).invoice_id != (#[trigger] next.payments[j]).invoice_id by {
        assert(next.payments[i] == engine.payments[i]);
        if j < n {
            assert(next.payments[j] == engine.payments[j]);
        } else {
            assert(engine.payments[i].invoice_id != invoice_id);
        }
    }
}

/// An invoice leaves the pending state once. After an invoice was paid,
/// settled from a stake or failed, every further attempt to pay, settle or
/// fail it is refused with `InvalidState`; a refused call changes nothing,
/// so for an invoice revenue is credited at most once and at most one
/// record of settlement is appended. The call that succeeded changed no
/// other invoice; a settlement appended one record, a failure none.
pub proof fn lemma_settles_once(
    engine: BillingEngineView,
    caller: Address,
    attached: nat,
    invoice_id: Amount,
    payer: Address,
    now: u64,
)
    ensures
        engine.pay_invoice(caller, attached, invoice_id, now) matches Ok(next) ==> {
            &&& next.is_closed(invoice_id)
            &&& engine.same_invoices_but(next, invoice_id)
            &&& next.payments.len() == engine.payments.len() + 1
        },
        engine.pay_invoice_from_staking(caller, invoice_id, payer, now) matches Ok(next) ==> {
            &&& next.is_closed(invoice_id)
            &&& engine.same_invoices_but(next, invoice_id)
            &&& next.payments.len() == engine.payments.len() + 1
        },
        engine.fail_invoice(caller, invoice_id) matches Ok(next) ==> {
            &&& next.is_closed(invoice_id)
            &&& engine.same_invoices_but(next, invoice_id)
            &&& next.payments == engine.payments
            &&& next.revenue == engine.revenue
        },
{
}

/// An invoice that is not pending stays as it is: every attempt to pay,
/// settle or fail it is refused with `InvalidState`.
pub proof fn lemma_terminal_is_closed(engine: BillingEngineView, invoice_id: Amount)
    requires
        engine.has_invoice(invoice_id),
        engine.invoice(invoice_id).status != InvoiceStatus::Pending,
    ensures
        engine.is_closed(invoice_id),
{
}

/// What a settlement credits: the merchant's revenue grows by the total less
/// the fee, the fee and that part make up the total, and no other
/// merchant's revenue changes.
pub proof fn lemma_settlement_credits(
    engine: BillingEngineView,
    invoice_id: Amount,
    now: u64,
    method: u8,
)
    requires
        engine.valid(),
        engine.has_invoice(invoice_id),
    ensures
        ({
            let next = engine.settled(invoice_id, now, method);
            let invoice = engine.invoice(invoice_id);
            &&& engine.fee_on(invoice_id) <= invoice.total_amount
            &&& next.revenue_of(invoice.merchant) + engine.fee_on(invoice_id) == engine.revenue_of(
                invoice.merchant,
            ) + invoice.total_amount
            &&& forall|other: Address|
                other != invoice.merchant ==> #[trigger] next.revenue_of(other)
                    == engine.revenue_of(other)
        }),
{
    lemma_fee_bounded(engine.invoice(invoice_id).total_amount, engine.protocol_fee_bps as nat);
}

/// The fee split: at any rate of at most all basis points, the fee and the
/// recipient's part of a total add up to the total.
pub proof fn lemma_fee_split(total: nat, fee_bps: nat)
    requires
        fee_bps <= 10_000,
    ensures
        fee_for(total, fee_bps) <= total,
        fee_for(total, fee_bps) + (total - fee_for(total, fee_bps)) as nat == total,
{
    lemma_fee_bounded(total, fee_bps);
}

} // verus!
