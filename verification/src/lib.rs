//! Core of a newsletter publishing service: an idempotent command processor
//! with a transactional outbox and a delivery worker.
//!
//! The durable store that the real service keeps in a database is modelled by
//! [`store::Store`], whose operations correspond to the single atomic
//! statements and transactions of the service's database schema. Every
//! decision the service makes — claiming an idempotency key, committing a
//! publish, classifying a gateway failure — is verified here; the transport
//! and the actual network sends live outside the library.

pub mod domain;
pub mod idempotency;
pub mod laws;
pub mod password;
pub(crate) mod ids;
pub mod publish;
pub mod response;
pub mod store;
pub mod subscriptions;
pub mod subscriptions_confirm;
pub mod worker;
