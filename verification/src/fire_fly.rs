//! Data model of the destination ledger: the payloads the engine submits and
//! the records it updates.

pub mod general;
pub mod transaction;
