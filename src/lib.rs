//! A replicated decision log driven by the Tendermint consensus rules, with the
//! content-addressed hashing and signed envelopes that the rules consume.

pub mod bytes;
pub mod contracts;
pub mod fixed_app;
pub mod hash;
pub mod log;
pub mod merkle;
pub mod quorum;
pub mod tendermint;
pub mod timeout;
pub mod transactions;
pub mod types;
