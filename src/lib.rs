//! Idempotent command handling for a newsletter service: key validation, a
//! transactional model of the claim / saved-response / outbox tables, the
//! request coordinator, and the subscription helpers around it.

pub mod idempotency_key;
pub mod saved_response;
pub mod sources;
pub mod store;
pub mod coordinator;
pub mod laws;
pub mod login;
pub mod subscriptions;
