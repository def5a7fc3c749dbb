//! A newsletter service: subscriptions with mailed confirmation tokens,
//! idempotent publication of issues and a delivery queue drained by a worker.
pub mod domain;
mod text;
pub mod store;
mod fresh;
pub mod subscriptions;
pub mod subscriptions_confirm;
pub mod idempotency;
pub mod newsletters;
pub mod utils;
pub mod issue_delivery_worker;
pub mod laws;
pub mod authentication;
pub mod configuration;
pub mod dashboard;
pub mod request_id;
pub mod credentials;
