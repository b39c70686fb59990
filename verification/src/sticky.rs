//! Capability-mode routing with a memory per session: a turn whose judge fails
//! is served from the tier that the judge last chose for the session.

pub mod config;
pub mod endpoint;
pub mod error;
pub mod failure;
pub mod filter;
pub mod judge;
pub mod laws;
pub mod session;
pub mod store;
