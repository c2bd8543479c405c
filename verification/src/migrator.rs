//! The reconciliation engine: account mapping, conversion of source
//! transactions into destination payloads, the content-addressed tracker,
//! and the per-record decisions of a migration run.

pub mod account_map;
pub mod content_hash;
pub mod transaction_map;
pub mod transaction_tracker;

use vstd::prelude::*;
use crate::errors::MappingError;
use crate::errors::ReconciliationError;
use crate::fire_fly::transaction::TransactionData;
use crate::migrator::account_map::AccountMap;
use crate::migrator::content_hash::fingerprint;
use crate::migrator::transaction_map::convert_up_bank_transaction_to_fire_fly;
use crate::migrator::transaction_map::conversion_fails;
use crate::migrator::transaction_map::converted_category;
use crate::migrator::transaction_map::opt_str_is;
use crate::migrator::transaction_map::own_resolved;
use crate::migrator::transaction_map::payload_fields;
use crate::migrator::transaction_map::suppressed_transfer;
use crate::migrator::transaction_map::TransferType;
use crate::migrator::transaction_tracker::classify_model;
use crate::migrator::transaction_tracker::Status;
use crate::migrator::transaction_tracker::TransactionHashData;
use crate::migrator::transaction_tracker::TransactionType;
use crate::text::replace_char_exec;
use crate::text::str_eq;
use crate::text::views_of;
use crate::up_bank::general::Data;
use crate::up_bank::transactions::Transaction;

verus! {

/// Whether a transaction's own account is in the configured mapping.
pub open spec fn is_mapped_pred(map: Seq<AccountMap>) -> spec_fn(Transaction) -> bool {
    |t: Transaction| own_resolved(t, map) is Some
}

/// The names under which a record's tags are attached.
pub open spec fn tag_name_views(ts: Seq<Data>) -> Seq<Seq<char>> {
    ts.map_values(|d: Data| d.dat_type@)
}

/// A list of texts with later repetitions of an earlier text removed.
pub open spec fn dedup_model(s: Seq<Seq<char>>) -> Seq<Seq<char>>
    decreases s.len(),
{
    if s.len() == 0 {
        Seq::empty()
    } else {
        let d = dedup_model(s.drop_last());
        if s.drop_last().contains(s.last()) {
            d
        } else {
            d.push(s.last())
        }
    }
}

fn contains_string(v: &Vec<String>, x: &String) -> (r: bool)
    ensures
        r == views_of(v@).contains(x@),
{
    let n: usize = v.len();
    let mut i: usize = 0;
    while i < n
        invariant
            i <= n,
            n == v@.len(),
            forall|j: int| 0 <= j < i ==> views_of(v@)[j] != x@,
        decreases n - i,
    {
        if str_eq(v[i].as_str(), x.as_str()) {
            proof {
                assert(views_of(v@)[i as int] == x@);
            }
            return true;
        }
        i = i + 1;
    }
    proof {
        assert forall|j: int| 0 <= j < views_of(v@).len() implies views_of(v@)[j] != x@ by {}
    }
    false
}

/// Removes repeated tags, keeping the first occurrence of each and the
/// order of the rest.
pub fn dedup(v: &mut Vec<String>)
    ensures
        views_of(final(v)@) == dedup_model(views_of(old(v)@)),
{
    let n: usize = v.len();
    let mut out: Vec<String> = Vec::new();
    let mut i: usize = 0;
    proof {
        assert(views_of(v@.subrange(0, 0)) =~= Seq::<Seq<char>>::empty());
    }
    while i < n
        invariant
            i <= n,
            n == v@.len(),
            v@ == old(v)@,
            views_of(out@) == dedup_model(views_of(v@.subrange(0, i as int))),
        decreases n - i,
    {
        let x = v[i].clone();
        proof {
            lemma_dedup_members(views_of(v@.subrange(0, i as int)));
            assert(views_of(v@.subrange(0, i + 1)) =~= views_of(v@.subrange(0, i as int)).push(
                x@,
            ));
            assert(views_of(v@.subrange(0, i + 1)).drop_last() =~= views_of(
                v@.subrange(0, i as int),
            ));
        }
        if !contains_string(&out, &x) {
            out.push(x);
            proof {
                assert(views_of(out@) =~= dedup_model(views_of(v@.subrange(0, i + 1))));
            }
        } else {
            proof {
                assert(views_of(out@) =~= dedup_model(views_of(v@.subrange(0, i + 1))));
            }
        }
        i = i + 1;
    }
    proof {
        assert(v@.subrange(0, v@.len() as int) =~= v@);
    }
    *v = out;
}

/// Deduplication keeps exactly the texts that were there.
proof fn lemma_dedup_members(s: Seq<Seq<char>>)
    ensures
        forall|x: Seq<char>| dedup_model(s).contains(x) <==> s.contains(x),
    decreases s.len(),
{
    if s.len() > 0 {
        lemma_dedup_members(s.drop_last());
        assert forall|x: Seq<char>| dedup_model(s).contains(x) <==> s.contains(x) by {
            if s.contains(x) {
                let i = choose|i: int| 0 <= i < s.len() && s[i] == x;
                if i < s.len() - 1 {
                    assert(s.drop_last()[i] == x);
                    assert(s.drop_last().contains(x));
                    if !s.drop_last().contains(s.last()) {
                        assert(dedup_model(s.drop_last()).contains(x));
                        let j = choose|j: int|
                            0 <= j < dedup_model(s.drop_last()).len() && dedup_model(
                                s.drop_last(),
                            )[j] == x;
                        assert(dedup_model(s)[j] == x);
                    }
                } else {
                    if s.drop_last().contains(x) {
                        if !s.drop_last().contains(s.last()) {
                            assert(false);
                        }
                        assert(dedup_model(s.drop_last()).contains(x));
                        let j = choose|j: int|
                            0 <= j < dedup_model(s.drop_last()).len() && dedup_model(
                                s.drop_last(),
                            )[j] == x;
                        assert(dedup_model(s)[j] == x);
                    } else {
                        assert(dedup_model(s).last() == x);
                    }
                }
            }
            if dedup_model(s).contains(x) {
                let i = choose|i: int| 0 <= i < dedup_model(s).len() && dedup_model(s)[i] == x;
                if s.drop_last().contains(s.last()) {
                    assert(dedup_model(s.drop_last()).contains(x));
                    assert(s.drop_last().contains(x));
                    let j = choose|j: int| 0 <= j < s.drop_last().len() && s.drop_last()[j] == x;
                    assert(s[j] == x);
                } else {
                    if i < dedup_model(s).len() - 1 {
                        assert(dedup_model(s.drop_last())[i] == x);
                        assert(s.drop_last().contains(x));
                        let j = choose|j: int|
                            0 <= j < s.drop_last().len() && s.drop_last()[j] == x;
                        assert(s[j] == x);
                    } else {
                        assert(x == s.last());
                        assert(s[s.len() - 1] == x);
                    }
                }
            }
        }
    }
}

/// Aggregate counts of one migration run.
pub struct RunSummary {
    pub imported: u64,
    pub updated: u64,
    pub unchanged: u64,
    pub failed: u64,
}

impl RunSummary {
    pub fn new() -> (r: Self)
        ensures
            r.imported == 0 && r.updated == 0 && r.unchanged == 0 && r.failed == 0,
    {
        Self { imported: 0, updated: 0, unchanged: 0, failed: 0 }
    }

    pub fn count_imported(&mut self)
        requires
            old(self).imported < u64::MAX,
        ensures
            final(self).imported == old(self).imported + 1,
            final(self).updated == old(self).updated,
            final(self).unchanged == old(self).unchanged,
            final(self).failed == old(self).failed,
    {
        self.imported = self.imported + 1;
    }

    pub fn count_updated(&mut self)
        requires
            old(self).updated < u64::MAX,
        ensures
            final(self).updated == old(self).updated + 1,
            final(self).imported == old(self).imported,
            final(self).unchanged == old(self).unchanged,
            final(self).failed == old(self).failed,
    {
        self.updated = self.updated + 1;
    }

    pub fn count_unchanged(&mut self)
        requires
            old(self).unchanged < u64::MAX,
        ensures
            final(self).unchanged == old(self).unchanged + 1,
            final(self).imported == old(self).imported,
            final(self).updated == old(self).updated,
            final(self).failed == old(self).failed,
    {
        self.unchanged = self.unchanged + 1;
    }

    pub fn count_failed(&mut self)
        requires
            old(self).failed < u64::MAX,
        ensures
            final(self).failed == old(self).failed + 1,
            final(self).imported == old(self).imported,
            final(self).updated == old(self).updated,
            final(self).unchanged == old(self).unchanged,
    {
        self.failed = self.failed + 1;
    }
}

/// The engine of one migration run: the account mapping and the tracker.
/// The surrounding process fetches, creates and updates records remotely;
/// every decision about a record is made here.
pub struct Migrator {
    account_map: Vec<AccountMap>,
    transaction_tracker: TransactionHashData,
}

impl Migrator {
    pub closed spec fn wf(&self) -> bool {
        self.transaction_tracker.wf()
    }

    /// The configured account mapping.
    pub closed spec fn accounts(&self) -> Seq<AccountMap> {
        self.account_map@
    }

    /// The tracker's current map.
    pub closed spec fn tracker_map(&self) -> Map<Seq<char>, (TransactionType, Seq<char>)> {
        self.transaction_tracker@
    }

    pub fn create(account_map: Vec<AccountMap>, transaction_tracker: TransactionHashData) -> (m:
        Self)
        requires
            transaction_tracker.wf(),
        ensures
            m.wf(),
            m.accounts() == account_map@,
            m.tracker_map() == transaction_tracker@,
    {
        Self { account_map, transaction_tracker }
    }

    /// Hands the tracker back for persistence when the run is over.
    pub fn finish(self) -> (t: TransactionHashData)
        requires
            self.wf(),
        ensures
            t.wf(),
            t@ == self.tracker_map(),
    {
        self.transaction_tracker
    }

    /// Keeps exactly the transactions whose own account is mapped: the rest
    /// are out of scope for migration and reach neither the converter nor
    /// the destination ledger.
    pub fn filter_mapped(&self, transactions: Vec<Transaction>) -> (r: Vec<Transaction>)
        ensures
            r@ == transactions@.filter(is_mapped_pred(self.accounts())),
    {
        let ghost orig = transactions@;
        let mut input = transactions;
        let mut out: Vec<Transaction> = Vec::new();
        let ghost mut k: int = 0;
        proof {
            assert(input@ =~= orig.skip(0));
            assert(orig.subrange(0, 0).filter(is_mapped_pred(self.accounts()))
                =~= Seq::<Transaction>::empty());
        }
        while input.len() > 0
            invariant
                0 <= k <= orig.len(),
                input@ == orig.skip(k),
                out@ == orig.subrange(0, k).filter(is_mapped_pred(self.accounts())),
            decreases input@.len(),
        {
            let t = input.remove(0);
            proof {
                assert(t == orig[k]);
                assert(orig.skip(k).remove(0) =~= orig.skip(k + 1));
            }
            let mapped: bool = match &t.relationships.account.data {
                Some(data) => {
                    crate::migrator::transaction_map::is_account_internal(
                        data.id.as_str(),
                        &self.account_map,
                    ).is_some()
                }
                None => false,
            };
            proof {
                assert(mapped == is_mapped_pred(self.accounts())(t));
            }
            if mapped {
                out.push(t);
            }
            proof {
                broadcast use Seq::lemma_filter_push;

                assert(orig.subrange(0, k + 1) =~= orig.subrange(0, k).push(orig[k]));
                assert(out@ =~= orig.subrange(0, k + 1).filter(is_mapped_pred(self.accounts())));
                k = k + 1;
            }
        }
        proof {
            assert(orig.subrange(0, orig.len() as int) =~= orig);
        }
        out
    }

    /// Consults the tracker: has this exact record been seen before?
    pub fn classify(&self, transaction: &Transaction) -> (s: Status)
        requires
            self.wf(),
        ensures
            s == classify_model(self.tracker_map(), *transaction),
    {
        self.transaction_tracker.find_transaction(transaction)
    }

    /// Records the record's current digest under the given classification.
    pub fn record(&mut self, transaction: &Transaction, transaction_type: TransactionType)
        requires
            old(self).wf(),
        ensures
            final(self).wf(),
            final(self).accounts() == old(self).accounts(),
            ({
                let m = old(self).tracker_map();
                let id = transaction.id@;
                let fp = fingerprint(*transaction);
                if m.contains_key(id) && m[id].1 == fp {
                    final(self).tracker_map() == m
                } else {
                    final(self).tracker_map() == m.insert(id, (transaction_type, fp))
                }
            }),
    {
        self.transaction_tracker.add_transaction(transaction, transaction_type)
    }

    /// Refreshes the digest of an already-tracked record after its remote
    /// counterpart was updated.
    pub fn record_update(&mut self, transaction: &Transaction) -> (r: Result<
        (),
        ReconciliationError,
    >)
        requires
            old(self).wf(),
        ensures
            final(self).wf(),
            final(self).accounts() == old(self).accounts(),
            match r {
                Ok(()) => old(self).tracker_map().contains_key(transaction.id@)
                    && final(self).tracker_map() == old(self).tracker_map().insert(
                    transaction.id@,
                    (old(self).tracker_map()[transaction.id@].0, fingerprint(*transaction)),
                ),
                Err(e) => {
                    &&& e == ReconciliationError::Untracked
                    &&& !old(self).tracker_map().contains_key(transaction.id@)
                    &&& final(self).tracker_map() == old(self).tracker_map()
                },
            },
    {
        self.transaction_tracker.update_transaction(transaction)
    }

    /// Converts a record for creation, attaching the run's import tag to
    /// the payload when one is configured.
    pub fn convert_for_create(&self, transaction: &Transaction, import_tag: &Option<String>) -> (r:
        Result<TransferType, MappingError>)
        ensures
            match r {
                Ok(t) => match t {
                    TransferType::Transaction(p) => !conversion_fails(*transaction, self.accounts())
                        && !suppressed_transfer(*transaction, self.accounts()) && payload_fields(
                        *transaction,
                        self.accounts(),
                        p,
                    ) && views_of(p.tags@) == match import_tag {
                        Some(tag) => seq![tag@],
                        None => Seq::<Seq<char>>::empty(),
                    },
                    TransferType::TransactionDuplicate => suppressed_transfer(
                        *transaction,
                        self.accounts(),
                    ),
                },
                Err(e) => conversion_fails(*transaction, self.accounts()) && e
                    == MappingError::UnmappedAccount,
            },
    {
        match convert_up_bank_transaction_to_fire_fly(transaction, &self.account_map)? {
            TransferType::Transaction(fire_fly_payload) => {
                let mut p = fire_fly_payload;
                match import_tag {
                    Some(tag) => {
                        p.tags.push(tag.clone());
                        proof {
                            assert(views_of(p.tags@) =~= seq![tag@]);
                        }
                    }
                    None => {
                        proof {
                            assert(views_of(p.tags@) =~= Seq::<Seq<char>>::empty());
                        }
                    }
                }
                Ok(TransferType::Transaction(p))
            }
            TransferType::TransactionDuplicate => Ok(TransferType::TransactionDuplicate),
        }
    }

    /// Merges a remotely edited record into its stored destination
    /// counterpart: the update target must be exactly one record with at
    /// least one journal entry; its category is replaced with the source's
    /// latest and its tags become the deduplicated union.
    pub fn prepare_update(&self, transaction: &Transaction, found: Vec<TransactionData>) -> (r:
        Result<crate::fire_fly::transaction::Transaction, ReconciliationError>)
        ensures
            match r {
                Ok(u) => found@.len() == 1 && found@[0].transactions@.len() >= 1 && ({
                    let base = found@[0].transactions@[0];
                    &&& u.transaction_journal_id == base.transaction_journal_id
                    &&& u.transaction_type == base.transaction_type
                    &&& u.date == base.date
                    &&& u.amount == base.amount
                    &&& u.description == base.description
                    &&& u.currency_code == base.currency_code
                    &&& u.source_id == base.source_id
                    &&& u.source_name == base.source_name
                    &&& u.destination_id == base.destination_id
                    &&& u.destination_name == base.destination_name
                    &&& u.external_id == base.external_id
                    &&& u.external_url == base.external_url
                    &&& opt_str_is(u.category_name, converted_category(*transaction))
                    &&& views_of(u.tags@) == dedup_model(
                        views_of(base.tags@) + tag_name_views(
                            transaction.relationships.tags.data@,
                        ),
                    )
                }),
                Err(e) => match e {
                    ReconciliationError::AmbiguousMatch => found@.len() != 1,
                    ReconciliationError::EmptyMatch => found@.len() == 1
                        && found@[0].transactions@.len() == 0,
                    ReconciliationError::Untracked => false,
                },
            },
    {
        let mut found = found;
        if found.len() != 1 {
            return Err(ReconciliationError::AmbiguousMatch);
        }
        let group = found.remove(0);
        let mut transactions = group.transactions;
        if transactions.len() == 0 {
            return Err(ReconciliationError::EmptyMatch);
        }
        let mut base = transactions.remove(0);

        base.category_name = match &transaction.relationships.category.data {
            Some(data) => Some(replace_char_exec(data.id.as_str(), '-', '_')),
            None => None,
        };

        let tags = &transaction.relationships.tags.data;
        let n: usize = tags.len();
        let mut i: usize = 0;
        let ghost base_tags = base.tags@;
        let ghost base0 = base;
        proof {
            assert(views_of(base.tags@) =~= views_of(base_tags) + tag_name_views(
                tags@.subrange(0, 0),
            ));
        }
        while i < n
            invariant
                i <= n,
                n == tags@.len(),
                views_of(base.tags@) == views_of(base_tags) + tag_name_views(
                    tags@.subrange(0, i as int),
                ),
                base.transaction_journal_id == base0.transaction_journal_id,
                base.transaction_type == base0.transaction_type,
                base.date == base0.date,
                base.amount == base0.amount,
                base.description == base0.description,
                base.currency_code == base0.currency_code,
                base.category_name == base0.category_name,
                base.source_id == base0.source_id,
                base.source_name == base0.source_name,
                base.destination_id == base0.destination_id,
                base.destination_name == base0.destination_name,
                base.external_id == base0.external_id,
                base.external_url == base0.external_url,
            decreases n - i,
        {
            let ghost prev = base.tags@;
            base.tags.push(tags[i].dat_type.clone());
            proof {
                assert(base.tags@ == prev.push(base.tags@.last()));
                assert(base.tags@.last()@ == tags@[i as int].dat_type@);
                assert(views_of(base.tags@) =~= views_of(prev).push(tags@[i as int].dat_type@));
                assert(tag_name_views(tags@.subrange(0, i + 1)) =~= tag_name_views(
                    tags@.subrange(0, i as int),
                ).push(tags@[i as int].dat_type@));
                assert(views_of(base.tags@) =~= views_of(base_tags) + tag_name_views(
                    tags@.subrange(0, i + 1),
                ));
            }
            i = i + 1;
        }
        proof {
            assert(tags@.subrange(0, tags@.len() as int) =~= tags@);
        }
        dedup(&mut base.tags);
        Ok(base)
    }
}

} // verus!
