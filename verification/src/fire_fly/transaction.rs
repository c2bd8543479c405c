//! Destination-ledger transaction records: the payload submitted on create,
//! the insert envelope around it, and the fields touched on update.

use vstd::prelude::*;

verus! {

/// A search hit: one stored transaction group of the destination ledger,
/// holding the journal entries that can be updated.
pub struct TransactionData {
    pub id: String,
    pub transactions: Vec<Transaction>,
}

/// The mutable face of one stored destination transaction, as fetched before
/// an update and pushed back afterwards.
pub struct Transaction {
    pub transaction_journal_id: String,
    pub transaction_type: String,
    pub date: String,
    pub amount: String,
    pub description: String,
    pub currency_code: Option<String>,
    pub category_name: Option<String>,
    pub source_id: Option<String>,
    pub source_name: Option<String>,
    pub destination_id: Option<String>,
    pub destination_name: Option<String>,
    pub tags: Vec<String>,
    pub external_id: Option<String>,
    pub external_url: Option<String>,
}

/// Links of a stored transaction group.
pub struct Links {
    pub the_0: The0,
    pub links_self: String,
}

/// One link relation.
pub struct The0 {
    pub rel: String,
    pub uri: String,
}

/// The envelope posted to create transactions.
pub struct TransactionInsertRequest {
    pub error_if_duplicate_hash: bool,
    pub apply_rules: bool,
    pub fire_webhooks: bool,
    pub group_title: String,
    pub transactions: Vec<TransactionPayload>,
}

impl TransactionInsertRequest {
    /// The envelope the engine posts: rules applied, webhooks fired, no
    /// duplicate-hash rejection, exactly the one payload inside.
    pub fn for_single(payload: TransactionPayload) -> (r: TransactionInsertRequest)
        ensures
            r.error_if_duplicate_hash == false,
            r.apply_rules == true,
            r.fire_webhooks == true,
            r.group_title@ == Seq::<char>::empty(),
            r.transactions@ =~= seq![payload],
    {
        let mut transactions: Vec<TransactionPayload> = Vec::new();
        transactions.push(payload);
        TransactionInsertRequest {
            error_if_duplicate_hash: false,
            apply_rules: true,
            fire_webhooks: true,
            group_title: String::new(),
            transactions,
        }
    }
}

/// A converted record, ready for submission to the destination ledger.
pub struct TransactionPayload {
    pub transaction_type: String,
    pub date: String,
    pub amount: String,
    pub description: String,
    pub order: Option<i32>,
    pub currency_code: Option<String>,
    pub foreign_amount: Option<String>,
    pub foreign_currency_code: Option<String>,
    pub category_name: Option<String>,
    pub source_id: Option<String>,
    pub source_name: Option<String>,
    pub destination_id: Option<String>,
    pub destination_name: Option<String>,
    pub tags: Vec<String>,
    pub external_id: Option<String>,
    pub external_url: Option<String>,
}

impl Default for TransactionPayload {
    /// An empty payload: every text field empty, every optional field absent.
    fn default() -> (r: Self)
        ensures
            r.transaction_type@ == Seq::<char>::empty(),
            r.date@ == Seq::<char>::empty(),
            r.amount@ == Seq::<char>::empty(),
            r.description@ == Seq::<char>::empty(),
            r.order is None,
            r.currency_code is None,
            r.foreign_amount is None,
            r.foreign_currency_code is None,
            r.category_name is None,
            r.source_id is None,
            r.source_name is None,
            r.destination_id is None,
            r.destination_name is None,
            r.tags@ == Seq::<String>::empty(),
            r.external_id is None,
            r.external_url is None,
    {
        TransactionPayload {
            transaction_type: String::new(),
            date: String::new(),
            amount: String::new(),
            description: String::new(),
            order: None,
            currency_code: None,
            foreign_amount: None,
            foreign_currency_code: None,
            category_name: None,
            source_id: None,
            source_name: None,
            destination_id: None,
            destination_name: None,
            tags: Vec::new(),
            external_id: None,
            external_url: None,
        }
    }
}

} // verus!
