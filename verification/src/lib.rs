//! Benchmark core for probing how reliably transactions land on a ledger
//! during the slots a chosen set of validators is scheduled to produce.
//!
//! The verified pieces are the streaming slot-event filter, the leader
//! schedule index with its reverse lookup, the landing auditor, the batch
//! planner for status queries, the freshness-token cache state, and the
//! probe transaction builder. Network and process plumbing live outside
//! the library.

pub mod audit;
pub mod batch;
pub mod cache;
pub mod config;
pub mod memo_tx;
pub mod schedule;
pub mod slot_filter;

pub use config::Config;
