//! A verified model of an asynchronous payment-processing pipeline.
//!
//! Clients submit payments; a batching worker groups them into on-chain
//! transactions; further workers drive each batch through signing,
//! broadcast and confirmation. Two coupled state machines (per payment
//! and per batch) are kept consistent by the [`store::Store`], the single
//! source of truth: retries are bounded, terminal failures cascade from a
//! batch to its member payments, and ingress is idempotent on the
//! `(client_id, account_name)` key.

pub mod ext;
pub mod ingress;
pub mod laws;
pub mod model;
pub mod status;
pub mod store;
pub mod workers;
