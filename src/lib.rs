//! A single-connection transaction actor. Transactions from any number of
//! producers are applied one at a time to one lazily created connection,
//! which is dropped after an idle period; the model in `model` states what
//! the actor does, and `laws` proves what holds of every run. The remaining
//! modules hold the request-level helpers of the HTTP and mail front ends.

pub mod actor;
pub mod auth;
pub mod files;
pub mod laws;
pub mod mail;
pub mod model;
pub mod services;
