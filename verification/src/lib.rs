//! A blocking front for an asynchronous Ethereum node client.
//!
//! The crate holds what such a front decides: which execution engine drives
//! the work, how concurrent sub-requests are joined, and how the joined
//! replies become the result of a query. Sending the requests is left to the
//! caller, who hands each reply over as it arrives.

pub mod adapter;
pub mod engine;
pub mod join2;
pub mod join3;
pub mod query;
pub mod step;
pub mod types;
