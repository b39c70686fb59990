//! Capability-mode routing with a per-session floor: once a session has been
//! routed to the strong tier it is not routed below it again.

pub mod config;
pub mod endpoint;
pub mod error;
pub mod filter;
pub mod floor;
pub mod judge;
pub mod laws;
pub mod translate;
