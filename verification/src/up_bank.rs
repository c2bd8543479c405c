//! Data model of the source ledger: transaction records as fetched, with
//! their money values, relationships and links.

pub mod general;
pub mod pagination;
pub mod transactions;
