//! Core of an idempotent newsletter publication pipeline.
//!
//! The crate models the persistent state of a small newsletter service
//! (subscribers, confirmation tokens, published issues, a delivery queue and
//! an idempotency ledger) as an in-memory store with verified operations:
//! the reservation/replay protocol that makes publishing idempotent, the
//! transactional outbox step that enqueues one delivery task per confirmed
//! subscriber, and the worker step that claims and resolves delivery tasks.

pub mod clock;
pub mod confirmation;
pub mod idempotency;
pub mod key;
pub mod newsletter;
pub mod newsletter_form;
pub mod outbox;
pub mod publish;
pub mod response;
pub mod startup;
pub mod store;
pub mod subscriptions;
pub mod worker;
