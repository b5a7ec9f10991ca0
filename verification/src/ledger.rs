//! The payment ledger: a state machine over the keyed store, an identifier
//! allocator, and the notification log.
//!
//! The hosting environment is the ledger's collaborator for two things it
//! does not implement itself: it proves that a caller controls the identity
//! it claims before an operation runs (an authorization failure aborts the
//! call and never reaches the ledger), and it supplies the clock reading that
//! `create_payment` records.

use crate::payment::Address;
use crate::payment::Error;
use crate::payment::Payment;
use crate::payment::PaymentCompleted;
use crate::payment::PaymentRefunded;
use crate::payment::PaymentStatus;
use crate::store::DataKey;
use crate::store::Store;
use crate::store::StoreValue;
use vstd::prelude::*;

verus! {

/// The status transition that completing a payment performs.
pub open spec fn spec_complete_transition(status: PaymentStatus) -> Result<
    PaymentStatus,
    Error,
> {
    match status {
        PaymentStatus::Pending => Ok(PaymentStatus::Completed),
        PaymentStatus::Completed => Err(Error::AlreadyProcessed),
        PaymentStatus::Refunded => Err(Error::InvalidStatus),
        PaymentStatus::Cancelled => Err(Error::InvalidStatus),
    }
}

/// The status transition that refunding a payment performs.
pub open spec fn spec_refund_transition(status: PaymentStatus) -> Result<PaymentStatus, Error> {
    match status {
        PaymentStatus::Pending => Ok(PaymentStatus::Refunded),
        PaymentStatus::Completed => Err(Error::InvalidStatus),
        PaymentStatus::Refunded => Err(Error::AlreadyProcessed),
        PaymentStatus::Cancelled => Err(Error::InvalidStatus),
    }
}

/// Decides what completing a payment in state `status` does: the new status,
/// or the error that leaves the record unchanged.
pub fn complete_transition(status: PaymentStatus) -> (result: Result<PaymentStatus, Error>)
    ensures
        result == spec_complete_transition(status),
{
    match status {
        PaymentStatus::Pending => Ok(PaymentStatus::Completed),
        PaymentStatus::Completed => Err(Error::AlreadyProcessed),
        PaymentStatus::Refunded => Err(Error::InvalidStatus),
        PaymentStatus::Cancelled => Err(Error::InvalidStatus),
    }
}

/// Decides what refunding a payment in state `status` does.
pub fn refund_transition(status: PaymentStatus) -> (result: Result<PaymentStatus, Error>)
    ensures
        result == spec_refund_transition(status),
{
    match status {
        PaymentStatus::Pending => Ok(PaymentStatus::Refunded),
        PaymentStatus::Completed => Err(Error::InvalidStatus),
        PaymentStatus::Refunded => Err(Error::AlreadyProcessed),
        PaymentStatus::Cancelled => Err(Error::InvalidStatus),
    }
}

/// `p` with its status replaced; every other field is kept, as the ledger's
/// invariant demands.
pub open spec fn with_status(p: Payment, status: PaymentStatus) -> Payment {
    Payment { status, ..p }
}

/// The notification that completing `p` emits.
pub open spec fn completion_event(p: Payment) -> PaymentCompleted {
    PaymentCompleted { payment_id: p.id, merchant: p.merchant, amount: p.amount }
}

/// The notification that refunding `p` emits.
pub open spec fn refund_event(p: Payment) -> PaymentRefunded {
    PaymentRefunded { payment_id: p.id, customer: p.customer, amount: p.amount }
}

/// The counter a store denotes: the value of the counter slot, or 0 if the
/// slot was never written (no payments exist yet).
pub open spec fn counter_of(m: Map<DataKey, StoreValue>) -> u64 {
    if m.dom().contains(DataKey::PaymentCounter) {
        match m[DataKey::PaymentCounter] {
            StoreValue::Counter(c) => c,
            StoreValue::Record(_) => 0,
        }
    } else {
        0
    }
}

/// The payment records a store denotes, keyed by id.
pub open spec fn payments_of(m: Map<DataKey, StoreValue>) -> Map<u64, Payment> {
    Map::new(
        |id: u64|
            m.dom().contains(DataKey::Payment(id)) && m[DataKey::Payment(id)] is Record,
        |id: u64|
            match m[DataKey::Payment(id)] {
                StoreValue::Record(p) => p,
                StoreValue::Counter(_) => arbitrary(),
            },
    )
}

/// Writing a payment record into a store inserts it into the denoted record
/// map and leaves the denoted counter alone.
proof fn lemma_payments_of_insert_record(m: Map<DataKey, StoreValue>, id: u64, p: Payment)
    ensures
        payments_of(m.insert(DataKey::Payment(id), StoreValue::Record(p))) == payments_of(
            m,
        ).insert(id, p),
        counter_of(m.insert(DataKey::Payment(id), StoreValue::Record(p))) == counter_of(m),
{
    let m2 = m.insert(DataKey::Payment(id), StoreValue::Record(p));
    assert forall|x: u64|
        payments_of(m2).dom().contains(x) == payments_of(m).insert(id, p).dom().contains(
            x,
        ) by {}
    assert(payments_of(m2) =~= payments_of(m).insert(id, p));
}

/// Writing the counter slot leaves the denoted record map alone.
proof fn lemma_payments_of_set_counter(m: Map<DataKey, StoreValue>, c: u64)
    ensures
        payments_of(m.insert(DataKey::PaymentCounter, StoreValue::Counter(c))) == payments_of(m),
        counter_of(m.insert(DataKey::PaymentCounter, StoreValue::Counter(c))) == c,
{
    let m2 = m.insert(DataKey::PaymentCounter, StoreValue::Counter(c));
    assert(payments_of(m2) =~= payments_of(m));
}

/// Law: payments evolve independently. A mutation writes a single id, so
/// every other id keeps exactly the record — status included — that it
/// mapped to before, and ids absent before stay absent.
pub proof fn lemma_mutation_is_local(
    before: Map<u64, Payment>,
    after: Map<u64, Payment>,
    id: u64,
    p: Payment,
    other: u64,
)
    requires
        after == before.insert(id, p),
        other != id,
    ensures
        after.dom().contains(other) == before.dom().contains(other),
        before.dom().contains(other) ==> after[other] == before[other],
{
}

/// Law: the status machine is monotone. A transition succeeds exactly on a
/// `Pending` record, `complete` can only reach `Completed` and `refund` only
/// `Refunded`; so there is no path back to `Pending` and no path between
/// the terminal states.
pub proof fn lemma_terminal_statuses_stick(status: PaymentStatus)
    ensures
        spec_complete_transition(status) is Ok <==> status is Pending,
        spec_refund_transition(status) is Ok <==> status is Pending,
        spec_complete_transition(status) is Ok ==> spec_complete_transition(status)->Ok_0
            is Completed,
        spec_refund_transition(status) is Ok ==> spec_refund_transition(status)->Ok_0 is Refunded,
{
}

/// Law: a record, once created, changes in no field but `status`. The
/// mutating operations write records only through `with_status`, which
/// keeps the identity, the parties, the amount, the token and the creation
/// time of the record it starts from.
pub proof fn lemma_only_status_changes(p: Payment, status: PaymentStatus)
    ensures
        with_status(p, status).status == status,
        with_status(p, status).id == p.id,
        with_status(p, status).customer == p.customer,
        with_status(p, status).merchant == p.merchant,
        with_status(p, status).amount == p.amount,
        with_status(p, status).token == p.token,
        with_status(p, status).created_at == p.created_at,
{
}

/// The abstract state of the ledger: the records by id, the last-assigned
/// id, and the two notification logs in emission order.
#[verifier::ext_equal]
pub struct LedgerView {
    pub payments: Map<u64, Payment>,
    pub counter: u64,
    pub completed: Seq<PaymentCompleted>,
    pub refunded: Seq<PaymentRefunded>,
}

/// The payment ledger. It owns the persisted state: the keyed store holding
/// the records and the counter, and the append-only logs of the
/// notifications the mutating operations emitted.
pub struct PaymentContract {
    store: Store,
    completed_log: Vec<PaymentCompleted>,
    refunded_log: Vec<PaymentRefunded>,
}

impl View for PaymentContract {
    type V = LedgerView;

    closed spec fn view(&self) -> LedgerView {
        LedgerView {
            payments: payments_of(self.store.view()),
            counter: counter_of(self.store.view()),
            completed: self.completed_log.view(),
            refunded: self.refunded_log.view(),
        }
    }
}

impl PaymentContract {
    /// The ledger's invariant: the store's keys are well formed, the counter
    /// slot holds a counter, record slots exist for exactly the ids
    /// 1..=counter, and each record carries the id it is stored under.
    pub closed spec fn wf(&self) -> bool {
        &&& self.store.wf()
        &&& (self.store.view().dom().contains(DataKey::PaymentCounter) ==> self.store.view()[
            DataKey::PaymentCounter
        ] is Counter)
        &&& (forall|id: u64|
            #[trigger] self.store.view().dom().contains(DataKey::Payment(id)) <==> 1 <= id
                <= counter_of(self.store.view()))
        &&& (forall|id: u64|
            self.store.view().dom().contains(DataKey::Payment(id)) ==> (
            #[trigger] self.store.view()[DataKey::Payment(id)]) is Record && self.store.view()[
                DataKey::Payment(id)
            ]->Record_0.id == id)
    }

    /// An empty ledger: no payments, counter 0, nothing emitted.
    pub fn new() -> (ledger: Self)
        ensures
            ledger.wf(),
            ledger@.payments == Map::<u64, Payment>::empty(),
            ledger@.counter == 0,
            ledger@.completed == Seq::<PaymentCompleted>::empty(),
            ledger@.refunded == Seq::<PaymentRefunded>::empty(),
    {
        let ledger = PaymentContract {
            store: Store::new(),
            completed_log: Vec::new(),
            refunded_log: Vec::new(),
        };
        proof {
            assert(ledger@.payments =~= Map::<u64, Payment>::empty());
        }
        ledger
    }

    /// The id most recently assigned by `create_payment`, or 0 if no payment
    /// was ever created.
    pub fn payment_count(&self) -> (count: u64)
        requires
            self.wf(),
        ensures
            count == self@.counter,
    {
        match self.store.get(DataKey::PaymentCounter) {
            Some(StoreValue::Counter(c)) => c,
            _ => 0,
        }
    }

    /// Whether a record exists under `payment_id`.
    pub fn has_payment(&self, payment_id: u64) -> (present: bool)
        requires
            self.wf(),
        ensures
            present == self@.payments.dom().contains(payment_id),
    {
        self.store.has(DataKey::Payment(payment_id))
    }

    /// Opens a payment obligation of `customer` toward `merchant` and returns
    /// its id, the successor of the previously assigned id.
    ///
    /// The host must have proven that the caller controls `customer` before
    /// invoking this (a failed proof aborts the call in the host), and it
    /// supplies `created_at` from its clock.
    pub fn create_payment(
        &mut self,
        customer: Address,
        merchant: Address,
        amount: i128,
        token: Address,
        created_at: u64,
    ) -> (payment_id: u64)
        requires
            old(self).wf(),
            old(self)@.counter < u64::MAX,
        ensures
            final(self).wf(),
            payment_id == old(self)@.counter + 1,
            final(self)@.counter == payment_id,
            final(self)@.payments == old(self)@.payments.insert(
                payment_id,
                (Payment {
                    id: payment_id,
                    customer,
                    merchant,
                    amount,
                    token,
                    status: PaymentStatus::Pending,
                    created_at,
                }),
            ),
            final(self)@.completed == old(self)@.completed,
            final(self)@.refunded == old(self)@.refunded,
    {
        let counter = self.payment_count();
        let payment_id = counter + 1;
        let payment = Payment {
            id: payment_id,
            customer,
            merchant,
            amount,
            token,
            status: PaymentStatus::Pending,
            created_at,
        };
        proof {
            lemma_payments_of_insert_record(
                self.store.view(),
                payment_id,
                payment,
            );
            lemma_payments_of_set_counter(
                self.store.view().insert(
                    DataKey::Payment(payment_id),
                    StoreValue::Record(payment),
                ),
                payment_id,
            );
        }
        self.store.set(DataKey::Payment(payment_id), StoreValue::Record(payment));
        self.store.set(DataKey::PaymentCounter, StoreValue::Counter(payment_id));
        payment_id
    }

    /// The record under `payment_id`. A caller must present an id that
    /// `create_payment` returned: an unknown id is a hard failure, not a
    /// recoverable error.
    pub fn get_payment(&self, payment_id: u64) -> (payment: Payment)
        requires
            self.wf(),
            self@.payments.dom().contains(payment_id),
        ensures
            payment == self@.payments[payment_id],
    {
        match self.store.get(DataKey::Payment(payment_id)) {
            Some(StoreValue::Record(payment)) => payment,
            _ => unreached(),
        }
    }

    /// Marks the payment under `payment_id` as fulfilled.
    ///
    /// On a `Pending` record the status becomes `Completed`, every other
    /// field is kept, and a `PaymentCompleted` notification is appended to
    /// the log; any failure leaves the ledger unchanged. The host must have
    /// proven that the caller controls `admin` before invoking this.
    #[allow(unused_variables)]
    pub fn complete_payment(&mut self, admin: Address, payment_id: u64) -> (result: Result<
        (),
        Error,
    >)
        requires
            old(self).wf(),
        ensures
            final(self).wf(),
            !old(self)@.payments.dom().contains(payment_id) ==> result == Err::<(), Error>(
                Error::PaymentNotFound,
            ) && final(self)@ == old(self)@,
            old(self)@.payments.dom().contains(payment_id) ==> (match spec_complete_transition(
                old(self)@.payments[payment_id].status,
            ) {
                Ok(new_status) => {
                    &&& result == Ok::<(), Error>(())
                    &&& final(self)@.payments == old(self)@.payments.insert(
                        payment_id,
                        with_status(old(self)@.payments[payment_id], new_status),
                    )
                    &&& final(self)@.completed == old(self)@.completed.push(
                        completion_event(old(self)@.payments[payment_id]),
                    )
                    &&& final(self)@.refunded == old(self)@.refunded
                    &&& final(self)@.counter == old(self)@.counter
                },
                Err(e) => result == Err::<(), Error>(e) && final(self)@ == old(self)@,
            }),
    {
        if !self.has_payment(payment_id) {
            return Err(Error::PaymentNotFound);
        }
        let payment = self.get_payment(payment_id);
        match complete_transition(payment.status) {
            Ok(new_status) => {
                let updated = Payment {
                    id: payment.id,
                    customer: payment.customer,
                    merchant: payment.merchant,
                    amount: payment.amount,
                    token: payment.token,
                    status: new_status,
                    created_at: payment.created_at,
                };
                proof {
                    lemma_payments_of_insert_record(self.store.view(), payment_id, updated);
                }
                self.store.set(DataKey::Payment(payment_id), StoreValue::Record(updated));
                self.completed_log.push(
                    PaymentCompleted {
                        payment_id,
                        merchant: payment.merchant,
                        amount: payment.amount,
                    },
                );
                Ok(())
            },
            Err(e) => Err(e),
        }
    }

    /// Marks the payment under `payment_id` as reversed.
    ///
    /// On a `Pending` record the status becomes `Refunded`, every other
    /// field is kept, and a `PaymentRefunded` notification is appended to
    /// the log; any failure leaves the ledger unchanged. The host must have
    /// proven that the caller controls `admin` before invoking this.
    #[allow(unused_variables)]
    pub fn refund_payment(&mut self, admin: Address, payment_id: u64) -> (result: Result<
        (),
        Error,
    >)
        requires
            old(self).wf(),
        ensures
            final(self).wf(),
            !old(self)@.payments.dom().contains(payment_id) ==> result == Err::<(), Error>(
                Error::PaymentNotFound,
            ) && final(self)@ == old(self)@,
            old(self)@.payments.dom().contains(payment_id) ==> (match spec_refund_transition(
                old(self)@.payments[payment_id].status,
            ) {
                Ok(new_status) => {
                    &&& result == Ok::<(), Error>(())
                    &&& final(self)@.payments == old(self)@.payments.insert(
                        payment_id,
                        with_status(old(self)@.payments[payment_id], new_status),
                    )
                    &&& final(self)@.refunded == old(self)@.refunded.push(
                        refund_event(old(self)@.payments[payment_id]),
                    )
                    &&& final(self)@.completed == old(self)@.completed
                    &&& final(self)@.counter == old(self)@.counter
                },
                Err(e) => result == Err::<(), Error>(e) && final(self)@ == old(self)@,
            }),
    {
        if !self.has_payment(payment_id) {
            return Err(Error::PaymentNotFound);
        }
        let payment = self.get_payment(payment_id);
        match refund_transition(payment.status) {
            Ok(new_status) => {
                let updated = Payment {
                    id: payment.id,
                    customer: payment.customer,
                    merchant: payment.merchant,
                    amount: payment.amount,
                    token: payment.token,
                    status: new_status,
                    created_at: payment.created_at,
                };
                proof {
                    lemma_payments_of_insert_record(self.store.view(), payment_id, updated);
                }
                self.store.set(DataKey::Payment(payment_id), StoreValue::Record(updated));
                self.refunded_log.push(
                    PaymentRefunded {
                        payment_id,
                        customer: payment.customer,
                        amount: payment.amount,
                    },
                );
                Ok(())
            },
            Err(e) => Err(e),
        }
    }

    /// Law: ids are allocated densely. A well-formed ledger holds records
    /// for exactly the ids `1..=counter`; since `create_payment` returns
    /// `counter + 1` and advances the counter to it, the ids handed out are
    /// exactly `1, 2, 3, ...` in call order, with no gaps and no repeats.
    pub proof fn lemma_payment_ids_dense(&self)
        requires
            self.wf(),
        ensures
            forall|id: u64| self@.payments.dom().contains(id) <==> 1 <= id <= self@.counter,
    {
        assert forall|id: u64|
            self@.payments.dom().contains(id) <==> 1 <= id <= self@.counter by {
            assert(self@.payments.dom().contains(id) == (self.store.view().dom().contains(
                DataKey::Payment(id),
            ) && self.store.view()[DataKey::Payment(id)] is Record));
        }
    }

    /// Law: an id that `create_payment` never returned maps to no record, so
    /// it fails `get_payment`'s precondition (a hard failure) rather than
    /// yielding a value.
    pub proof fn lemma_unknown_id_unmapped(&self, id: u64)
        requires
            self.wf(),
            id == 0 || id > self@.counter,
        ensures
            !self@.payments.dom().contains(id),
    {
        self.lemma_payment_ids_dense();
    }

    /// The `PaymentCompleted` notifications emitted so far, oldest first.
    pub fn completed_events(&self) -> (events: &Vec<PaymentCompleted>)
        ensures
            events@ == self@.completed,
    {
        &self.completed_log
    }

    /// The `PaymentRefunded` notifications emitted so far, oldest first.
    pub fn refunded_events(&self) -> (events: &Vec<PaymentRefunded>)
        ensures
            events@ == self@.refunded,
    {
        &self.refunded_log
    }
}

} // verus!
