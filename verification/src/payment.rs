//! The domain types of the ledger: payment records, their statuses, the
//! errors of the mutating operations, and the notification values they emit.

use vstd::prelude::*;

verus! {

/// An opaque identity: a party (customer, merchant, administrator) or a unit
/// of account. The ledger never interprets it; it only stores and returns it.
/// The hosting environment is responsible for proving that a caller controls
/// the identity it claims.
#[derive(Clone, Copy, Debug, PartialEq, Eq, Structural)]
pub struct Address {
    pub id: u64,
}

/// The lifecycle state of a payment. `status` is the only mutable field of a
/// record; transitions run `Pending -> Completed` or `Pending -> Refunded`,
/// both terminal. `Cancelled` is a defined terminal state that no operation
/// of this core reaches; it is reserved for future extension.
#[derive(Clone, Copy, Debug, PartialEq, Eq, Structural)]
pub enum PaymentStatus {
    Pending,
    Completed,
    Refunded,
    Cancelled,
}

/// The recoverable errors of the mutating operations.
#[derive(Clone, Copy, Debug, PartialEq, Eq, Structural)]
pub enum Error {
    /// The referenced id has no record.
    PaymentNotFound,
    /// The record is in a terminal state incompatible with the requested
    /// transition.
    InvalidStatus,
    /// The record is already in the terminal state the caller asked for.
    AlreadyProcessed,
}

/// A payment record. Every field but `status` is immutable after creation.
#[derive(Clone, Copy, Debug, PartialEq, Eq, Structural)]
pub struct Payment {
    /// Unique sequence number, assigned at creation.
    pub id: u64,
    /// The party who opened the payment.
    pub customer: Address,
    /// The intended recipient.
    pub merchant: Address,
    /// Opaque magnitude; the ledger validates neither sign nor bounds.
    pub amount: i128,
    /// The unit of account.
    pub token: Address,
    /// The lifecycle state.
    pub status: PaymentStatus,
    /// Timestamp captured at creation from the environment's clock.
    pub created_at: u64,
}

/// Notification emitted when a payment is completed.
#[derive(Clone, Copy, Debug, PartialEq, Eq, Structural)]
pub struct PaymentCompleted {
    pub payment_id: u64,
    pub merchant: Address,
    pub amount: i128,
}

/// Notification emitted when a payment is refunded.
#[derive(Clone, Copy, Debug, PartialEq, Eq, Structural)]
pub struct PaymentRefunded {
    pub payment_id: u64,
    pub customer: Address,
    pub amount: i128,
}

} // verus!
