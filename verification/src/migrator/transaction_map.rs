//! Conversion of one source transaction into a destination payload, with
//! the internal-transfer rule: the outgoing leg of a transfer between two
//! mapped accounts is suppressed, the incoming leg becomes the one Transfer
//! record.

use vstd::prelude::*;
use crate::errors::MappingError;
use crate::fire_fly::transaction::TransactionPayload;
use crate::migrator::account_map::AccountMap;
use crate::migrator::account_map::resolve;
use crate::text::remove_char;
use crate::text::replace_char;
use crate::text::replace_char_exec;
use crate::text::str_eq;
use crate::text::strip_char;
use crate::up_bank::transactions::Attributes;
use crate::up_bank::transactions::Transaction;

verus! {

/// The outcome of a conversion: a payload to submit, or the marker that the
/// record is the suppressed leg of an internal transfer.
pub enum TransferType {
    Transaction(TransactionPayload),
    TransactionDuplicate,
}

pub open spec fn withdrawal_name() -> Seq<char> {
    seq!['w', 'i', 't', 'h', 'd', 'r', 'a', 'w', 'a', 'l']
}

pub open spec fn deposit_name() -> Seq<char> {
    seq!['d', 'e', 'p', 'o', 's', 'i', 't']
}

pub open spec fn transfer_name() -> Seq<char> {
    seq!['t', 'r', 'a', 'n', 's', 'f', 'e', 'r']
}

/// The id of the account the transaction itself sits on, when present.
pub open spec fn own_account_id(tx: Transaction) -> Option<Seq<char>> {
    match tx.relationships.account.data {
        Some(d) => Some(d.id@),
        None => None,
    }
}

/// The id of the transfer counterparty account, when present.
pub open spec fn counterparty_id(tx: Transaction) -> Option<Seq<char>> {
    match tx.relationships.transfer_account.data {
        Some(d) => Some(d.id@),
        None => None,
    }
}

/// The raw name under which the transfer counterparty is known.
pub open spec fn counterparty_name(tx: Transaction) -> Option<Seq<char>> {
    match tx.relationships.transfer_account.data {
        Some(d) => Some(d.dat_type@),
        None => None,
    }
}

/// The mapped destination account of the transaction's own account.
pub open spec fn own_resolved(tx: Transaction, map: Seq<AccountMap>) -> Option<Seq<char>> {
    match own_account_id(tx) {
        Some(id) => resolve(map, id),
        None => None,
    }
}

/// The mapped destination account of the transfer counterparty.
pub open spec fn counterparty_resolved(tx: Transaction, map: Seq<AccountMap>) -> Option<
    Seq<char>,
> {
    match counterparty_id(tx) {
        Some(id) => resolve(map, id),
        None => None,
    }
}

pub open spec fn is_withdrawal(tx: Transaction) -> bool {
    tx.attributes.amount.value_in_base_units < 0
}

/// Conversion fails exactly when the record's own account is absent or has
/// no mapped destination account.
pub open spec fn conversion_fails(tx: Transaction, map: Seq<AccountMap>) -> bool {
    own_resolved(tx, map) is None
}

/// The record is the outgoing leg of an internal transfer between two mapped
/// accounts, which the engine suppresses.
pub open spec fn suppressed_transfer(tx: Transaction, map: Seq<AccountMap>) -> bool {
    &&& !conversion_fails(tx, map)
    &&& is_withdrawal(tx)
    &&& counterparty_resolved(tx, map) is Some
}

/// Relates an optional exec string to its expected spec value.
pub open spec fn opt_str_is(o: Option<String>, m: Option<Seq<char>>) -> bool {
    match (o, m) {
        (Some(s), Some(v)) => s@ == v,
        (None, None) => true,
        _ => false,
    }
}

/// The payload's description: the record's description, with the raw
/// statement text appended after a comma when present.
pub open spec fn converted_description(att: Attributes) -> Seq<char> {
    match att.raw_text {
        Some(t) => att.description@ + seq![',', ' '] + t@,
        None => att.description@,
    }
}

/// The payload's amount: the textual value with its sign removed.
pub open spec fn converted_amount(att: Attributes) -> Seq<char> {
    remove_char(att.amount.value@, '-')
}

/// The payload's category name: the category id with identifier punctuation
/// made underscore-safe.
pub open spec fn converted_category(tx: Transaction) -> Option<Seq<char>> {
    match tx.relationships.category.data {
        Some(d) => Some(replace_char(d.id@, '-', '_')),
        None => None,
    }
}

/// The record's self link, when present.
pub open spec fn external_url_of(tx: Transaction) -> Option<Seq<char>> {
    match tx.links {
        Some(l) => match l.links_self {
            Some(s) => Some(s@),
            None => None,
        },
        None => None,
    }
}

/// The payload's foreign amount: the secondary value when present, an
/// explicit zero otherwise.
pub open spec fn foreign_amount_of(att: Attributes) -> Seq<char> {
    match att.foreign_amount {
        Some(m) => m.value@,
        None => seq!['0'],
    }
}

pub open spec fn foreign_code_of(att: Attributes) -> Option<Seq<char>> {
    match att.foreign_amount {
        Some(m) => Some(m.currency_code@),
        None => None,
    }
}

/// The payload's type for a record that is not suppressed.
pub open spec fn expected_type(tx: Transaction, map: Seq<AccountMap>) -> Seq<char> {
    if is_withdrawal(tx) {
        withdrawal_name()
    } else if counterparty_resolved(tx, map) is Some {
        transfer_name()
    } else {
        deposit_name()
    }
}

/// The free-text name of the opposite party: the counterparty's raw name
/// when one is attached, the record's description otherwise.
pub open spec fn external_party_name(tx: Transaction) -> Seq<char> {
    match counterparty_name(tx) {
        Some(n) => n,
        None => tx.attributes.description@,
    }
}

/// Every field of the payload emitted for a convertible record, except the
/// tags, which the orchestration may extend with an import tag.
pub open spec fn payload_fields(tx: Transaction, map: Seq<AccountMap>, p: TransactionPayload) -> bool {
    &&& opt_str_is(p.external_id, Some(tx.id@))
    &&& opt_str_is(p.external_url, external_url_of(tx))
    &&& p.amount@ == converted_amount(tx.attributes)
    &&& opt_str_is(p.currency_code, Some(tx.attributes.amount.currency_code@))
    &&& p.date@ == tx.attributes.created_at@
    &&& p.description@ == converted_description(tx.attributes)
    &&& p.order == Some(0i32)
    &&& opt_str_is(p.category_name, converted_category(tx))
    &&& opt_str_is(p.foreign_amount, Some(foreign_amount_of(tx.attributes)))
    &&& opt_str_is(p.foreign_currency_code, foreign_code_of(tx.attributes))
    &&& p.transaction_type@ == expected_type(tx, map)
    &&& if is_withdrawal(tx) {
        &&& opt_str_is(p.source_id, own_resolved(tx, map))
        &&& p.source_name is None
        &&& p.destination_id is None
        &&& opt_str_is(p.destination_name, Some(external_party_name(tx)))
    } else {
        &&& opt_str_is(p.destination_id, own_resolved(tx, map))
        &&& p.destination_name is None
        &&& if counterparty_resolved(tx, map) is Some {
            &&& opt_str_is(p.source_id, counterparty_resolved(tx, map))
            &&& p.source_name is None
        } else {
            &&& p.source_id is None
            &&& opt_str_is(p.source_name, Some(external_party_name(tx)))
        }
    }
}

/// Every field of the payload emitted for a convertible record, with no
/// tags attached yet.
pub open spec fn payload_for(tx: Transaction, map: Seq<AccountMap>, p: TransactionPayload) -> bool {
    &&& payload_fields(tx, map, p)
    &&& p.tags@.len() == 0
}

/// Looks the account up in the configured mapping and hands back its
/// destination-side id.
pub fn is_account_internal(account_id: &str, account_map: &Vec<AccountMap>) -> (r: Option<String>)
    ensures
        match r {
            Some(s) => resolve(account_map@, account_id@) == Some(s@),
            None => resolve(account_map@, account_id@) is None,
        },
{
    let n: usize = account_map.len();
    let mut i: usize = 0;
    proof {
        assert(account_map@.skip(0) =~= account_map@);
    }
    while i < n
        invariant
            i <= n,
            n == account_map@.len(),
            resolve(account_map@, account_id@) == resolve(
                account_map@.skip(i as int),
                account_id@,
            ),
        decreases n - i,
    {
        proof {
            assert(account_map@.skip(i as int)[0] == account_map@[i as int]);
            assert(account_map@.skip(i as int).drop_first() =~= account_map@.skip(i + 1));
        }
        if str_eq(account_map[i].up_account_id.as_str(), account_id) {
            return Some(account_map[i].fire_fly_account_id.clone());
        }
        i = i + 1;
    }
    proof {
        assert(account_map@.skip(n as int).len() == 0);
    }
    None
}

fn withdrawal_string() -> (r: String)
    ensures
        r@ == withdrawal_name(),
{
    proof {
        reveal_strlit("withdrawal");
        assert("withdrawal"@ =~= withdrawal_name());
    }
    String::from_str("withdrawal")
}

fn deposit_string() -> (r: String)
    ensures
        r@ == deposit_name(),
{
    proof {
        reveal_strlit("deposit");
        assert("deposit"@ =~= deposit_name());
    }
    String::from_str("deposit")
}

fn transfer_string() -> (r: String)
    ensures
        r@ == transfer_name(),
{
    proof {
        reveal_strlit("transfer");
        assert("transfer"@ =~= transfer_name());
    }
    String::from_str("transfer")
}

/// Converts one source transaction against the account mapping: an
/// unmapped own account is a `MappingError`, the outgoing leg of an internal
/// transfer is suppressed, and everything else becomes exactly the payload
/// that `payload_for` describes.
pub fn convert_up_bank_transaction_to_fire_fly(
    up_bank_transaction: &Transaction,
    account_map: &Vec<AccountMap>,
) -> (r: Result<TransferType, MappingError>)
    ensures
        match r {
            Ok(t) => match t {
                TransferType::Transaction(p) => !conversion_fails(*up_bank_transaction, account_map@)
                    && !suppressed_transfer(*up_bank_transaction, account_map@) && payload_for(
                    *up_bank_transaction,
                    account_map@,
                    p,
                ),
                TransferType::TransactionDuplicate => suppressed_transfer(
                    *up_bank_transaction,
                    account_map@,
                ),
            },
            Err(e) => conversion_fails(*up_bank_transaction, account_map@) && e
                == MappingError::UnmappedAccount,
        },
{
    let tx = up_bank_transaction;
    let mut p = TransactionPayload::default();

    p.external_id = Some(tx.id.clone());
    p.external_url = match &tx.links {
        Some(links) => match &links.links_self {
            Some(s) => Some(s.clone()),
            None => None,
        },
        None => None,
    };
    p.amount = strip_char(tx.attributes.amount.value.as_str(), '-');
    p.currency_code = Some(tx.attributes.amount.currency_code.clone());
    p.date = tx.attributes.created_at.clone();

    let mut description = tx.attributes.description.clone();
    match &tx.attributes.raw_text {
        Some(text) => {
            description.append(", ");
            description.append(text.as_str());
            proof {
                reveal_strlit(", ");
                assert(", "@ =~= seq![',', ' ']);
            }
        }
        None => {},
    }
    assert(description@ == converted_description(tx.attributes));
    p.description = description;

    p.order = Some(0);

    p.category_name = match &tx.relationships.category.data {
        Some(data) => Some(replace_char_exec(data.id.as_str(), '-', '_')),
        None => None,
    };

    match &tx.attributes.foreign_amount {
        Some(foreign) => {
            p.foreign_amount = Some(foreign.value.clone());
            p.foreign_currency_code = Some(foreign.currency_code.clone());
        }
        None => {
            proof {
                reveal_strlit("0");
                assert("0"@ =~= seq!['0']);
            }
            p.foreign_amount = Some(String::from_str("0"));
        }
    }

    if tx.attributes.amount.value_in_base_units < 0 {
        p.transaction_type = withdrawal_string();
        match &tx.relationships.account.data {
            Some(data) => {
                match is_account_internal(data.id.as_str(), account_map) {
                    Some(account) => {
                        p.source_id = Some(account);
                    }
                    None => {
                        return Err(MappingError::UnmappedAccount);
                    }
                }
            }
            None => {
                return Err(MappingError::UnmappedAccount);
            }
        }

        match &tx.relationships.transfer_account.data {
            Some(transfer_account) => {
                match is_account_internal(transfer_account.id.as_str(), account_map) {
                    Some(_fire_fly_id) => {
                        // the incoming leg alone becomes the Transfer record
                        return Ok(TransferType::TransactionDuplicate);
                    }
                    None => {
                        p.destination_name = Some(transfer_account.dat_type.clone());
                    }
                }
            }
            None => {
                p.destination_name = Some(tx.attributes.description.clone());
            }
        }
    } else {
        p.transaction_type = deposit_string();
        match &tx.relationships.account.data {
            Some(data) => {
                match is_account_internal(data.id.as_str(), account_map) {
                    Some(account) => {
                        p.destination_id = Some(account);
                    }
                    None => {
                        return Err(MappingError::UnmappedAccount);
                    }
                }
            }
            None => {
                return Err(MappingError::UnmappedAccount);
            }
        }

        match &tx.relationships.transfer_account.data {
            Some(transfer_account) => {
                match is_account_internal(transfer_account.id.as_str(), account_map) {
                    Some(fire_fly_id) => {
                        p.source_id = Some(fire_fly_id);
                        p.transaction_type = transfer_string();
                    }
                    None => {
                        p.source_name = Some(transfer_account.dat_type.clone());
                    }
                }
            }
            None => {
                p.source_name = Some(tx.attributes.description.clone());
            }
        }
    }

    Ok(TransferType::Transaction(p))
}

/// Transfer single-emission: of the two mirrored source records of one
/// internal transfer between two mapped accounts, the outgoing leg is
/// suppressed and the incoming leg converts, to a payload whose type is
/// Transfer — whichever order the two legs arrive in.
pub proof fn lemma_transfer_single_emission(
    out_leg: Transaction,
    in_leg: Transaction,
    map: Seq<AccountMap>,
)
    requires
        is_withdrawal(out_leg),
        !is_withdrawal(in_leg),
        own_account_id(out_leg) is Some,
        own_account_id(in_leg) is Some,
        own_resolved(out_leg, map) is Some,
        own_resolved(in_leg, map) is Some,
        counterparty_id(out_leg) == own_account_id(in_leg),
        counterparty_id(in_leg) == own_account_id(out_leg),
    ensures
        suppressed_transfer(out_leg, map),
        !suppressed_transfer(in_leg, map),
        !conversion_fails(in_leg, map),
        forall|p: TransactionPayload|
            payload_for(in_leg, map, p) ==> p.transaction_type@ == transfer_name(),
{
    assert(counterparty_resolved(out_leg, map) == own_resolved(in_leg, map));
    assert(counterparty_resolved(in_leg, map) == own_resolved(out_leg, map));
}

} // verus!
