//! A minimal payment record ledger.
//!
//! A customer opens a payment obligation toward a merchant; an administrator
//! later marks it fulfilled (`Completed`) or reversed (`Refunded`). The whole
//! system is one state machine over persisted records, guarded by a
//! monotonically increasing identifier allocator.
//!
//! The persistent store is modelled as a keyed map ([`store`]), decoupled from
//! any particular storage engine; the hosting environment supplies the clock
//! and authenticates callers before the ledger operations run.

pub mod ledger;
pub mod payment;
pub mod store;
