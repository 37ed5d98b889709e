//! Secondary indexer core for a Bitcoin-inscription metaprotocol.
//!
//! The crate recognises two kinds of on-chain claim inscriptions — "bitmap"
//! block-height ownership claims and "BNS" human-readable name claims —
//! validates them against prior registry state and protocol rules, and keeps
//! the resulting registry together with its history and quarantine tables.
//! Everything here is pure decision and bookkeeping logic; disk persistence,
//! HTTP fetching and the gossip transport live outside the library and hand
//! plain values in and out.

pub mod bytes;
pub mod cache;
pub mod config;
pub mod driver;
pub mod indexer;
pub mod network;
pub mod registry;
