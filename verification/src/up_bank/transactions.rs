//! A source-ledger transaction record.

use vstd::prelude::*;
use crate::up_bank::general;

verus! {

/// One transaction as the source ledger reports it.
pub struct Transaction {
    pub datum_type: String,
    pub id: String,
    pub attributes: Attributes,
    pub relationships: Relationships,
    pub links: Option<general::Links>,
}

/// The transaction's own fields.
pub struct Attributes {
    pub status: String,
    pub raw_text: Option<String>,
    pub description: String,
    pub message: Option<String>,
    pub is_categorizable: bool,
    pub hold_info: Option<HoldInfoObject>,
    pub round_up: Option<RoundUpObject>,
    pub cashback: Option<Cashback>,
    pub amount: general::MoneyObject,
    pub foreign_amount: Option<general::MoneyObject>,
    pub card_purchase_method: Option<CardPurchaseMethod>,
    pub settled_at: Option<String>,
    pub created_at: String,
}

/// Links from the transaction to accounts, categories and tags.
pub struct Relationships {
    pub account: AccountID,
    pub transfer_account: AccountID,
    pub category: Category,
    pub parent_category: ParentCategory,
    pub tags: general::Tags,
}

/// A possibly-absent account reference.
pub struct AccountID {
    pub data: Option<general::Data>,
    pub links: Option<general::LinksRelated>,
}

/// A possibly-absent category reference.
pub struct Category {
    pub data: Option<general::Data>,
    pub links: Option<CategoryLinks>,
}

/// The parent of the attached category.
pub struct ParentCategory {
    pub data: Option<general::Data>,
    pub links: Option<general::LinksRelated>,
}

/// Links of a category reference.
pub struct CategoryLinks {
    pub links_self: Option<String>,
    pub related: Option<String>,
}

/// A hold placed while the transaction settles.
pub struct HoldInfoObject {
    pub amount: general::MoneyObject,
    pub foreign_amount: Option<general::MoneyObject>,
}

/// A round-up contribution attached to the transaction.
pub struct RoundUpObject {
    pub amount: general::MoneyObject,
    pub boost_portion: Option<general::MoneyObject>,
}

/// Cashback paid on the transaction.
pub struct Cashback {
    pub description: String,
    pub amount: general::MoneyObject,
}

/// How a card purchase was made.
pub struct CardPurchaseMethod {
    pub method: String,
    pub card_number_suffix: Option<String>,
}

} // verus!
