//! Verified core of a token-transfer netflow indexer: classification of
//! transfers against a watched address set, exact running totals per
//! (exchange, token) pair with idempotent event application, and the
//! decoding of raw log records.

pub mod amount;
pub mod apis;
pub mod classify;
pub mod config;
pub mod db;
pub mod hashing;
pub mod indexer;
pub mod types;
