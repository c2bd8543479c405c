use up_firefly::errors::{MappingError, ReconciliationError};
use up_firefly::fire_fly::transaction::{
    Transaction as FireFlyTransaction, TransactionData, TransactionInsertRequest,
    TransactionPayload,
};
use up_firefly::migrator::account_map::AccountMap;
use up_firefly::migrator::transaction_map::{
    convert_up_bank_transaction_to_fire_fly, is_account_internal, TransferType,
};
use up_firefly::migrator::transaction_tracker::{
    Status, TransactionHash, TransactionHashData, TransactionType,
};
use up_firefly::migrator::{dedup, Migrator, RunSummary};
use up_firefly::up_bank::general::{Data, MoneyObject, Tags};
use up_firefly::up_bank::transactions::{
    AccountID, Attributes, Category, ParentCategory, Relationships, Transaction,
};

fn tx(
    id: &str,
    units: i64,
    value: &str,
    desc: &str,
    account: Option<&str>,
    counterparty: Option<(&str, &str)>,
    category: Option<&str>,
    tags: &[&str],
) -> Transaction {
    Transaction {
        datum_type: "transactions".to_string(),
        id: id.to_string(),
        attributes: Attributes {
            status: "SETTLED".to_string(),
            raw_text: None,
            description: desc.to_string(),
            message: None,
            is_categorizable: true,
            hold_info: None,
            round_up: None,
            cashback: None,
            amount: MoneyObject {
                currency_code: "AUD".to_string(),
                value: value.to_string(),
                value_in_base_units: units,
            },
            foreign_amount: None,
            card_purchase_method: None,
            settled_at: None,
            created_at: "2023-01-01T00:00:00+10:00".to_string(),
        },
        relationships: Relationships {
            account: AccountID {
                data: account.map(|a| Data { dat_type: "accounts".to_string(), id: a.to_string() }),
                links: None,
            },
            transfer_account: AccountID {
                data: counterparty.map(|(name, cid)| Data {
                    dat_type: name.to_string(),
                    id: cid.to_string(),
                }),
                links: None,
            },
            category: Category {
                data: category.map(|c| Data {
                    dat_type: "categories".to_string(),
                    id: c.to_string(),
                }),
                links: None,
            },
            parent_category: ParentCategory { data: None, links: None },
            tags: Tags {
                data: tags
                    .iter()
                    .map(|t| Data { dat_type: t.to_string(), id: t.to_string() })
                    .collect(),
                links: None,
            },
        },
        links: None,
    }
}

fn mapping() -> Vec<AccountMap> {
    vec![
        AccountMap::create("up-a".to_string(), "ff-a".to_string()),
        AccountMap::create("up-b".to_string(), "ff-b".to_string()),
    ]
}

fn payload_of(r: Result<TransferType, MappingError>) -> TransactionPayload {
    match r {
        Ok(TransferType::Transaction(p)) => p,
        Ok(TransferType::TransactionDuplicate) => panic!("expected a payload, got a duplicate"),
        Err(e) => panic!("expected a payload, got {:?}", e),
    }
}

#[test]
fn account_lookup_resolves_configured_pairs() {
    let map = mapping();
    assert_eq!(is_account_internal("up-a", &map), Some("ff-a".to_string()));
    assert_eq!(is_account_internal("up-b", &map), Some("ff-b".to_string()));
    assert_eq!(is_account_internal("up-c", &map), None);
}

#[test]
fn withdrawal_converts_to_coffee_shop_payload() {
    // a 50.00 withdrawal on a mapped account with no transfer counterparty
    let t = tx("t1", -5000, "-50.00", "Coffee Shop", Some("up-a"), None, None, &[]);
    let p = payload_of(convert_up_bank_transaction_to_fire_fly(&t, &mapping()));
    assert_eq!(p.transaction_type, "withdrawal");
    assert_eq!(p.amount, "50.00");
    assert_eq!(p.source_id, Some("ff-a".to_string()));
    assert_eq!(p.source_name, None);
    assert_eq!(p.destination_id, None);
    assert_eq!(p.destination_name, Some("Coffee Shop".to_string()));
    assert_eq!(p.external_id, Some("t1".to_string()));
    assert_eq!(p.currency_code, Some("AUD".to_string()));
    assert_eq!(p.foreign_amount, Some("0".to_string()));
    assert_eq!(p.foreign_currency_code, None);
    assert_eq!(p.order, Some(0));
    assert_eq!(p.date, "2023-01-01T00:00:00+10:00");
    assert!(p.tags.is_empty());
}

#[test]
fn deposit_converts_to_deposit_payload() {
    let t = tx("t2", 12345, "123.45", "Salary", Some("up-b"), None, None, &[]);
    let p = payload_of(convert_up_bank_transaction_to_fire_fly(&t, &mapping()));
    assert_eq!(p.transaction_type, "deposit");
    assert_eq!(p.amount, "123.45");
    assert_eq!(p.destination_id, Some("ff-b".to_string()));
    assert_eq!(p.source_id, None);
    assert_eq!(p.source_name, Some("Salary".to_string()));
    assert_eq!(p.destination_name, None);
}

#[test]
fn transfer_pair_emits_exactly_one_transfer() {
    // one internal transfer of 100.00 from account a to account b:
    // the outgoing leg is suppressed, the incoming leg becomes the Transfer
    let out_leg = tx(
        "out",
        -10000,
        "-100.00",
        "Transfer to B",
        Some("up-a"),
        Some(("Spending", "up-b")),
        None,
        &[],
    );
    let in_leg = tx(
        "in",
        10000,
        "100.00",
        "Transfer from A",
        Some("up-b"),
        Some(("Savings", "up-a")),
        None,
        &[],
    );
    let map = mapping();
    match convert_up_bank_transaction_to_fire_fly(&out_leg, &map) {
        Ok(TransferType::TransactionDuplicate) => {}
        other => panic!("outgoing leg should be suppressed, got {:?}", other.is_ok()),
    }
    let p = payload_of(convert_up_bank_transaction_to_fire_fly(&in_leg, &map));
    assert_eq!(p.transaction_type, "transfer");
    assert_eq!(p.source_id, Some("ff-a".to_string()));
    assert_eq!(p.destination_id, Some("ff-b".to_string()));
}

#[test]
fn unmapped_account_is_a_mapping_error() {
    let t = tx("t3", -500, "-5.00", "Kiosk", Some("up-zzz"), None, None, &[]);
    assert_eq!(
        convert_up_bank_transaction_to_fire_fly(&t, &mapping()).err(),
        Some(MappingError::UnmappedAccount)
    );
    let missing = tx("t4", -500, "-5.00", "Kiosk", None, None, None, &[]);
    assert_eq!(
        convert_up_bank_transaction_to_fire_fly(&missing, &mapping()).err(),
        Some(MappingError::UnmappedAccount)
    );
}

#[test]
fn unresolved_counterparty_keeps_its_raw_name() {
    let t = tx(
        "t5",
        -700,
        "-7.00",
        "To a friend",
        Some("up-a"),
        Some(("Friend", "up-elsewhere")),
        None,
        &[],
    );
    let p = payload_of(convert_up_bank_transaction_to_fire_fly(&t, &mapping()));
    assert_eq!(p.transaction_type, "withdrawal");
    assert_eq!(p.destination_name, Some("Friend".to_string()));
}

#[test]
fn category_name_is_underscore_safe() {
    let t = tx(
        "t6",
        -800,
        "-8.00",
        "Dinner",
        Some("up-a"),
        None,
        Some("restaurants-and-cafes"),
        &[],
    );
    let p = payload_of(convert_up_bank_transaction_to_fire_fly(&t, &mapping()));
    assert_eq!(p.category_name, Some("restaurants_and_cafes".to_string()));
}

#[test]
fn raw_text_extends_the_description() {
    let mut t = tx("t7", -900, "-9.00", "Card", Some("up-a"), None, None, &[]);
    t.attributes.raw_text = Some("POS 1234".to_string());
    let p = payload_of(convert_up_bank_transaction_to_fire_fly(&t, &mapping()));
    assert_eq!(p.description, "Card, POS 1234");
}

#[test]
fn foreign_amount_is_carried_over() {
    let mut t = tx("t8", -1000, "-10.00", "Abroad", Some("up-a"), None, None, &[]);
    t.attributes.foreign_amount = Some(MoneyObject {
        currency_code: "USD".to_string(),
        value: "-6.50".to_string(),
        value_in_base_units: -650,
    });
    let p = payload_of(convert_up_bank_transaction_to_fire_fly(&t, &mapping()));
    assert_eq!(p.foreign_amount, Some("-6.50".to_string()));
    assert_eq!(p.foreign_currency_code, Some("USD".to_string()));
}

#[test]
fn string_to_enum_names_the_known_types() {
    assert_eq!(TransactionType::string_to_enum("transfer"), TransactionType::Transfer);
    assert_eq!(TransactionType::string_to_enum("withdrawal"), TransactionType::Withdrawal);
    assert_eq!(TransactionType::string_to_enum("deposit"), TransactionType::Deposit);
    assert_eq!(TransactionType::string_to_enum("oddity"), TransactionType::Deposit);
}

#[test]
fn tracker_classifies_new_exact_and_changed() {
    let mut tracker = TransactionHashData::empty();
    let t = tx("t9", -100, "-1.00", "Bus", Some("up-a"), None, Some("transport"), &["work"]);
    assert_eq!(tracker.find_transaction(&t), Status::NotFound);
    tracker.add_transaction(&t, TransactionType::Withdrawal);
    assert_eq!(tracker.find_transaction(&t), Status::FoundExact);

    let edited = tx("t9", -100, "-1.00", "Bus", Some("up-a"), None, Some("travel"), &["work"]);
    assert_eq!(tracker.find_transaction(&edited), Status::FoundNotExact);

    let retagged = tx(
        "t9",
        -100,
        "-1.00",
        "Bus",
        Some("up-a"),
        None,
        Some("transport"),
        &["work", "bus"],
    );
    assert_eq!(tracker.find_transaction(&retagged), Status::FoundNotExact);
}

#[test]
fn every_migrated_field_feeds_the_digest() {
    let mut tracker = TransactionHashData::empty();
    let base = tx("d1", -100, "-1.00", "Bus", Some("up-a"), None, Some("transport"), &["work"]);
    tracker.add_transaction(&base, TransactionType::Withdrawal);

    let mut new_amount = tx("d1", -200, "-2.00", "Bus", Some("up-a"), None, Some("transport"),
        &["work"]);
    new_amount.attributes.amount.value_in_base_units = -200;
    assert_eq!(tracker.find_transaction(&new_amount), Status::FoundNotExact);

    let new_description =
        tx("d1", -100, "-1.00", "Tram", Some("up-a"), None, Some("transport"), &["work"]);
    assert_eq!(tracker.find_transaction(&new_description), Status::FoundNotExact);

    let mut new_timestamp =
        tx("d1", -100, "-1.00", "Bus", Some("up-a"), None, Some("transport"), &["work"]);
    new_timestamp.attributes.settled_at = Some("2023-01-02T00:00:00+10:00".to_string());
    assert_eq!(tracker.find_transaction(&new_timestamp), Status::FoundNotExact);

    let mut new_counterparty =
        tx("d1", -100, "-1.00", "Bus", Some("up-a"), None, Some("transport"), &["work"]);
    new_counterparty.relationships.transfer_account.data =
        Some(Data { dat_type: "Savings".to_string(), id: "up-b".to_string() });
    assert_eq!(tracker.find_transaction(&new_counterparty), Status::FoundNotExact);

    let unchanged = tx("d1", -100, "-1.00", "Bus", Some("up-a"), None, Some("transport"),
        &["work"]);
    assert_eq!(tracker.find_transaction(&unchanged), Status::FoundExact);
}

#[test]
fn tracker_update_refreshes_the_stored_digest() {
    let mut tracker = TransactionHashData::empty();
    let t = tx("t10", -100, "-1.00", "Bus", Some("up-a"), None, Some("transport"), &[]);
    tracker.add_transaction(&t, TransactionType::Withdrawal);
    let edited = tx("t10", -100, "-1.00", "Bus", Some("up-a"), None, Some("travel"), &[]);
    assert_eq!(tracker.find_transaction(&edited), Status::FoundNotExact);
    assert!(tracker.update_transaction(&edited).is_ok());
    assert_eq!(tracker.find_transaction(&edited), Status::FoundExact);
    assert_eq!(tracker.find_transaction(&t), Status::FoundNotExact);
}

#[test]
fn tracker_update_refuses_untracked_ids() {
    let mut tracker = TransactionHashData::empty();
    let t = tx("t11", -100, "-1.00", "Bus", Some("up-a"), None, None, &[]);
    assert_eq!(tracker.update_transaction(&t).err(), Some(ReconciliationError::Untracked));
}

#[test]
fn tracker_round_trip_preserves_classification() {
    let mut tracker = TransactionHashData::empty();
    let t1 = tx("r1", -100, "-1.00", "Bus", Some("up-a"), None, Some("transport"), &["a"]);
    let t2 = tx("r2", 200, "2.00", "Refund", Some("up-b"), None, None, &[]);
    tracker.add_transaction(&t1, TransactionType::Withdrawal);
    tracker.add_transaction(&t2, TransactionType::Deposit);

    let records = tracker.to_records();
    let reloaded = TransactionHashData::from_records(records);
    assert_eq!(reloaded.find_transaction(&t1), Status::FoundExact);
    assert_eq!(reloaded.find_transaction(&t2), Status::FoundExact);
    let edited = tx("r1", -100, "-1.00", "Bus", Some("up-a"), None, Some("taxi"), &["a"]);
    assert_eq!(reloaded.find_transaction(&edited), Status::FoundNotExact);
    let unseen = tx("r3", 1, "0.01", "X", Some("up-a"), None, None, &[]);
    assert_eq!(reloaded.find_transaction(&unseen), Status::NotFound);
}

#[test]
fn persisted_rows_survive_a_rebuild() {
    let rows = vec![
        TransactionHash::new("k1".to_string(), TransactionType::Deposit, "d1".to_string()),
        TransactionHash::new("k2".to_string(), TransactionType::Transfer, "d2".to_string()),
        // a duplicate id: the later row wins, as a rewritten table would
        TransactionHash::new("k1".to_string(), TransactionType::Duplicate, "d3".to_string()),
    ];
    let tracker = TransactionHashData::from_records(rows);
    let mut out = tracker.to_records();
    out.sort_by(|a, b| a.id.cmp(&b.id));
    assert_eq!(out.len(), 2);
    assert_eq!(out[0].id, "k1");
    assert_eq!(out[0].hash, "d3");
    assert_eq!(out[0].transaction_type, TransactionType::Duplicate);
    assert_eq!(out[1].id, "k2");
    assert_eq!(out[1].hash, "d2");
}

#[test]
fn second_run_over_unchanged_data_is_a_no_op() {
    // first run: both records are new, are converted, and are recorded
    let mut migrator = Migrator::create(mapping(), TransactionHashData::empty());
    let tag = Some("UBFF3Import".to_string());
    let txs = vec![
        tx("i1", -5000, "-50.00", "Coffee Shop", Some("up-a"), None, None, &[]),
        tx("i2", 10000, "100.00", "Salary", Some("up-b"), None, None, &[]),
    ];
    let mut summary = RunSummary::new();
    for t in &txs {
        assert_eq!(migrator.classify(t), Status::NotFound);
        match migrator.convert_for_create(t, &tag).unwrap() {
            TransferType::Transaction(p) => {
                let kind = TransactionType::string_to_enum(&p.transaction_type);
                migrator.record(t, kind);
                summary.count_imported();
            }
            TransferType::TransactionDuplicate => {
                migrator.record(t, TransactionType::TransferDuplicate);
                summary.count_imported();
            }
        }
    }
    assert_eq!(summary.imported, 2);

    // second run: nothing changed, so every record classifies FoundExact
    // and neither a create nor an update is needed
    let mut creates = 0;
    let mut updates = 0;
    for t in &txs {
        match migrator.classify(t) {
            Status::FoundExact => {}
            Status::NotFound => creates += 1,
            Status::FoundNotExact => updates += 1,
        }
    }
    assert_eq!(creates, 0);
    assert_eq!(updates, 0);
}

#[test]
fn import_tag_is_attached_to_created_payloads() {
    let migrator = Migrator::create(mapping(), TransactionHashData::empty());
    let t = tx("g1", -5000, "-50.00", "Coffee Shop", Some("up-a"), None, None, &[]);
    match migrator.convert_for_create(&t, &Some("UBFF3Import".to_string())).unwrap() {
        TransferType::Transaction(p) => assert_eq!(p.tags, vec!["UBFF3Import".to_string()]),
        TransferType::TransactionDuplicate => panic!("should not be suppressed"),
    }
    match migrator.convert_for_create(&t, &None).unwrap() {
        TransferType::Transaction(p) => assert!(p.tags.is_empty()),
        TransferType::TransactionDuplicate => panic!("should not be suppressed"),
    }
}

#[test]
fn unmapped_transactions_are_filtered_out_before_conversion() {
    let migrator = Migrator::create(mapping(), TransactionHashData::empty());
    let kept = tx("f1", -100, "-1.00", "A", Some("up-a"), None, None, &[]);
    let dropped = tx("f2", -100, "-1.00", "B", Some("up-zzz"), None, None, &[]);
    let accountless = tx("f3", -100, "-1.00", "C", None, None, None, &[]);
    let out = migrator.filter_mapped(vec![kept, dropped, accountless]);
    assert_eq!(out.len(), 1);
    assert_eq!(out[0].id, "f1");
}

fn stored_destination(tags: &[&str]) -> TransactionData {
    TransactionData {
        id: "group-1".to_string(),
        transactions: vec![FireFlyTransaction {
            transaction_journal_id: "j-77".to_string(),
            transaction_type: "withdrawal".to_string(),
            date: "2023-01-01".to_string(),
            amount: "50.00".to_string(),
            description: "Groceries run".to_string(),
            currency_code: Some("AUD".to_string()),
            category_name: Some("Groceries".to_string()),
            source_id: Some("ff-a".to_string()),
            source_name: None,
            destination_id: None,
            destination_name: Some("Market".to_string()),
            tags: tags.iter().map(|t| t.to_string()).collect(),
            external_id: Some("u1".to_string()),
            external_url: None,
        }],
    }
}

#[test]
fn remote_category_edit_yields_one_merged_update() {
    // the record was imported under category Groceries with one tag
    let mut migrator = Migrator::create(mapping(), TransactionHashData::empty());
    let imported = tx("u1", -5000, "-50.00", "Groceries run", Some("up-a"), None,
        Some("Groceries"), &["food"]);
    migrator.record(&imported, TransactionType::Withdrawal);

    // remotely the category changed to Dining: the next run sees a change
    let edited = tx("u1", -5000, "-50.00", "Groceries run", Some("up-a"), None, Some("Dining"),
        &["food"]);
    assert_eq!(migrator.classify(&edited), Status::FoundNotExact);

    // exactly one stored destination record matches; the update carries the
    // latest category and the union of the tag sets, deduplicated
    let update = migrator.prepare_update(&edited, vec![stored_destination(&["old", "food"])]);
    let u = update.unwrap();
    assert_eq!(u.transaction_journal_id, "j-77");
    assert_eq!(u.category_name, Some("Dining".to_string()));
    assert_eq!(u.tags, vec!["old".to_string(), "food".to_string()]);
    assert_eq!(u.description, "Groceries run");
    assert_eq!(u.amount, "50.00");

    // after the update is pushed, the refreshed digest makes the run idempotent
    assert!(migrator.record_update(&edited).is_ok());
    assert_eq!(migrator.classify(&edited), Status::FoundExact);
}

#[test]
fn ambiguous_destination_match_is_refused() {
    let migrator = Migrator::create(mapping(), TransactionHashData::empty());
    let t = tx("u2", -5000, "-50.00", "X", Some("up-a"), None, None, &[]);
    assert_eq!(
        migrator.prepare_update(&t, vec![]).err(),
        Some(ReconciliationError::AmbiguousMatch)
    );
    assert_eq!(
        migrator
            .prepare_update(&t, vec![stored_destination(&[]), stored_destination(&[])])
            .err(),
        Some(ReconciliationError::AmbiguousMatch)
    );
    let hollow = TransactionData { id: "group-2".to_string(), transactions: vec![] };
    assert_eq!(
        migrator.prepare_update(&t, vec![hollow]).err(),
        Some(ReconciliationError::EmptyMatch)
    );
}

#[test]
fn dedup_keeps_first_occurrences_in_order() {
    let mut v = vec![
        "b".to_string(),
        "a".to_string(),
        "b".to_string(),
        "c".to_string(),
        "a".to_string(),
    ];
    dedup(&mut v);
    assert_eq!(v, vec!["b".to_string(), "a".to_string(), "c".to_string()]);
}

#[test]
fn insert_request_wraps_one_payload() {
    let mut p = TransactionPayload::default();
    p.description = "only".to_string();
    let req = TransactionInsertRequest::for_single(p);
    assert!(!req.error_if_duplicate_hash);
    assert!(req.apply_rules);
    assert!(req.fire_webhooks);
    assert_eq!(req.group_title, "");
    assert_eq!(req.transactions.len(), 1);
    assert_eq!(req.transactions[0].description, "only");
}

#[test]
fn run_summary_counts_each_outcome() {
    let mut s = RunSummary::new();
    s.count_imported();
    s.count_imported();
    s.count_updated();
    s.count_unchanged();
    s.count_failed();
    assert_eq!((s.imported, s.updated, s.unchanged, s.failed), (2, 1, 1, 1));
}
