//! Core of a session-coordinated, resumable ingestion pipeline for on-chain
//! account history.
//!
//! The library models the three coordination pieces of the pipeline — the
//! session registry, the per-address event hub with replay, and the sync
//! engine that paginates an upstream ledger — and proves their contracts.
//! All I/O (HTTP transport, the document store, the RPC client) lives
//! outside; the engine is a step machine that tells its caller which call to
//! perform next and consumes the call's outcome as an event.

pub mod address;
pub mod engine;
pub mod error;
pub mod message;
pub mod models;
pub mod registry;
pub mod runner;
pub mod session;
pub mod store;
pub mod upstream;
