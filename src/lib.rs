//! Backend of a dead-man's-switch monitor: capability tokens, a retention-bounded
//! message store, a decoupling channel between ingestion and persistence, a
//! per-account notification cooldown and a fan-out dispatcher.

pub mod errors;
mod table;
pub mod user;
pub mod token;
pub mod message;
pub mod store;
mod clock;
pub mod filter;
pub mod channel;
pub mod dispatch;
pub mod pipeline;
pub mod wire;
pub mod registration;
pub mod auth;
