//! The persistent caching layer of a monorepo task orchestrator: it
//! stores, retrieves and invalidates the results of prior task executions
//! so that unchanged work can be skipped.
//!
//! The engine owns one on-disk tree per workspace (`hashes/`, `runs/`,
//! `out/` and two workspace-wide state files) and is built from four
//! primitives: an access-mode gate, a typed state cache with TTL
//! staleness, a content-addressed hash store, and a hardlink-based output
//! materializer. Every record is persisted as JSON through a codec whose
//! encoder and parser are proved to round-trip, and every operation states
//! its mode gating and the paths it names in its contract.

pub mod chars;
pub mod config;
pub mod engine;
pub mod errors;
pub mod fsio;
pub mod item;
pub mod jcoll;
pub mod jnum;
pub mod jstr;
pub mod mode;
pub mod state;
pub mod strutil;
