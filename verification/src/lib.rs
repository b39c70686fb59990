//! Capability-mode routing between a weak and a strong model tier.
//!
//! A judge names the tier of a chat request; the filters here resolve it to a
//! cluster and a model, rewrite the request, and decide what becomes of it when
//! there is no answer. [`ratchet`] keeps a session from falling below a tier it
//! has reached, [`sticky`] serves a session from its last answer while the judge
//! fails.

pub mod classifier;
pub mod cli;
pub mod clock;
pub mod config;
pub mod json;
pub mod judge;
pub mod ratchet;
pub mod steps;
pub mod sticky;
pub mod text;
pub mod tier;
pub mod wire;
