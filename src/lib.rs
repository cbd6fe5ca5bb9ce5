//! Metered streaming billing: prepaid spending permissions, streaming
//! sessions debited over time, and the ledger that ties them together.

pub mod config;
pub mod error;
pub mod permission;
pub mod session;
pub mod service;
pub mod engine;
pub mod laws;
pub mod validation;
pub mod text;
pub mod chain;
pub mod rate_limit;
