//! Reconciliation and conversion engine between two transaction ledgers.
//!
//! Source-side transaction records are converted into destination-side
//! payloads, internal transfers are emitted exactly once, and a persisted
//! content-addressed tracker detects remote edits so that a re-run over
//! unchanged data performs no destination calls.

pub mod config;
pub mod errors;
pub mod fire_fly;
pub mod migrator;
pub mod operation;
pub mod text;
pub mod up_bank;
