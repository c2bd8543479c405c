//! Shared pieces of the source ledger's records.

use vstd::prelude::*;

verus! {

/// A record's link to itself.
pub struct Links {
    pub links_self: Option<String>,
}

/// A link to a related resource.
pub struct LinksRelated {
    pub related: String,
}

/// A typed identifier, as the source ledger attaches to relationships.
pub struct Data {
    pub dat_type: String,
    pub id: String,
}

/// The tags attached to a transaction.
pub struct Tags {
    pub data: Vec<Data>,
    pub links: Option<Links>,
}

/// An amount of money: its currency and its value, both as the textual
/// form and in minor units.
pub struct MoneyObject {
    pub currency_code: String,
    pub value: String,
    pub value_in_base_units: i64,
}

} // verus!
