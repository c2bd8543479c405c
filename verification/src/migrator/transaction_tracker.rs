//! The content-addressed reconciliation tracker: for each source
//! transaction id it remembers a classification and the content digest seen
//! last, and answers whether a freshly fetched record is new, unchanged, or
//! remotely edited.

use vstd::prelude::*;
use crate::errors::ReconciliationError;
use crate::migrator::content_hash::compute_fingerprint;
use crate::migrator::content_hash::data_view;
use crate::migrator::content_hash::fingerprint;
use crate::migrator::content_hash::lemma_fingerprint_injective;
use crate::migrator::content_hash::tags_view;
use crate::migrator::transaction_map::transfer_name;
use crate::migrator::transaction_map::withdrawal_name;
use crate::text::str_eq;
use crate::up_bank::transactions::Transaction;

verus! {

/// How a freshly fetched record compares against the tracker.
#[derive(Debug, PartialEq, Eq, Structural, Clone, Copy)]
pub enum Status {
    /// The id has never been tracked.
    NotFound,
    /// The id is tracked and the stored digest matches: nothing changed.
    FoundExact,
    /// The id is tracked but the digest differs: a remote edit happened.
    FoundNotExact,
}

/// The remembered classification of a processed record.
#[derive(Debug, PartialEq, Eq, Structural, Clone, Copy)]
pub enum TransactionType {
    Deposit,
    Withdrawal,
    Transfer,
    /// The suppressed leg of an internal transfer: intentionally never
    /// submitted, since the other leg carries the one Transfer record.
    TransferDuplicate,
    /// Already present on the destination side; recorded without a create.
    Duplicate,
}

impl TransactionType {
    /// The classification named by a payload's type string. A string that
    /// names no known type counts as a deposit, the payload type the
    /// converter falls back to.
    pub fn string_to_enum(value: &str) -> (r: TransactionType)
        ensures
            value@ == transfer_name() ==> r == TransactionType::Transfer,
            value@ == withdrawal_name() ==> r == TransactionType::Withdrawal,
            value@ != transfer_name() && value@ != withdrawal_name() ==> r
                == TransactionType::Deposit,
    {
        proof {
            reveal_strlit("transfer");
            reveal_strlit("withdrawal");
            assert("transfer"@ =~= transfer_name());
            assert("withdrawal"@ =~= withdrawal_name());
        }
        if str_eq(value, "transfer") {
            TransactionType::Transfer
        } else if str_eq(value, "withdrawal") {
            TransactionType::Withdrawal
        } else {
            TransactionType::Deposit
        }
    }
}

/// One tracker row: the record's id, its classification, and the content
/// digest under which it was last seen.
pub struct TransactionHash {
    pub id: String,
    pub transaction_type: TransactionType,
    pub hash: String,
}

impl TransactionHash {
    pub fn new(id: String, transaction_type: TransactionType, hash: String) -> (r: Self)
        ensures
            r.id == id,
            r.transaction_type == transaction_type,
            r.hash == hash,
    {
        Self { id, transaction_type, hash }
    }
}

/// What one row contributes to the tracker's map.
pub open spec fn entry_val(e: TransactionHash) -> (TransactionType, Seq<char>) {
    (e.transaction_type, e.hash@)
}

/// The map a sequence of rows denotes; on a repeated id the later row wins.
pub open spec fn map_of(s: Seq<TransactionHash>) -> Map<
    Seq<char>,
    (TransactionType, Seq<char>),
>
    decreases s.len(),
{
    if s.len() == 0 {
        Map::empty()
    } else {
        map_of(s.drop_last()).insert(s.last().id@, entry_val(s.last()))
    }
}

pub open spec fn distinct_ids(s: Seq<TransactionHash>) -> bool {
    forall|i: int, j: int| 0 <= i < j < s.len() ==> s[i].id@ != s[j].id@
}

/// How a record classifies against a tracker state.
pub open spec fn classify_model(
    m: Map<Seq<char>, (TransactionType, Seq<char>)>,
    tx: Transaction,
) -> Status {
    if !m.contains_key(tx.id@) {
        Status::NotFound
    } else if m[tx.id@].1 == fingerprint(tx) {
        Status::FoundExact
    } else {
        Status::FoundNotExact
    }
}

proof fn lemma_distinct_drop_last(s: Seq<TransactionHash>)
    requires
        distinct_ids(s),
        s.len() > 0,
    ensures
        distinct_ids(s.drop_last()),
{
    assert forall|i: int, j: int|
        0 <= i < j < s.drop_last().len() implies s.drop_last()[i].id@ != s.drop_last()[j].id@ by {
        assert(s.drop_last()[i] == s[i]);
        assert(s.drop_last()[j] == s[j]);
    }
}

/// With distinct ids, the denoted map holds exactly the rows.
proof fn lemma_map_of_distinct(s: Seq<TransactionHash>)
    requires
        distinct_ids(s),
    ensures
        forall|k: Seq<char>| #[trigger]
            map_of(s).contains_key(k) ==> exists|i: int| 0 <= i < s.len() && s[i].id@ == k,
        forall|i: int|
            0 <= i < s.len() ==> map_of(s).contains_key(#[trigger] s[i].id@) && map_of(s)[s[i].id@]
                == entry_val(s[i]),
    decreases s.len(),
{
    if s.len() > 0 {
        lemma_distinct_drop_last(s);
        lemma_map_of_distinct(s.drop_last());
        assert forall|i: int|
            0 <= i < s.len() implies map_of(s).contains_key(#[trigger] s[i].id@) && map_of(
            s,
        )[s[i].id@] == entry_val(s[i]) by {
            if i < s.len() - 1 {
                assert(s.drop_last()[i] == s[i]);
                assert(s[i].id@ != s.last().id@);
            }
        }
        assert forall|k: Seq<char>| #[trigger]
            map_of(s).contains_key(k) implies exists|i: int| 0 <= i < s.len() && s[i].id@
            == k by {
            if k == s.last().id@ {
                assert(s[s.len() - 1].id@ == k);
            } else {
                assert(map_of(s.drop_last()).contains_key(k));
                let i = choose|i: int| 0 <= i < s.drop_last().len() && s.drop_last()[i].id@ == k;
                assert(s[i].id@ == k);
            }
        }
    }
}

/// Replacing the row that holds an id rewrites exactly that id's value.
proof fn lemma_map_of_update(s: Seq<TransactionHash>, i: int, e: TransactionHash)
    requires
        distinct_ids(s),
        0 <= i < s.len(),
        e.id@ == s[i].id@,
    ensures
        map_of(s.update(i, e)) == map_of(s).insert(e.id@, entry_val(e)),
    decreases s.len(),
{
    let t = s.update(i, e);
    if i == s.len() - 1 {
        assert(t.drop_last() =~= s.drop_last());
        assert(t.last() == e);
        assert(map_of(t) =~= map_of(s).insert(e.id@, entry_val(e)));
    } else {
        assert(t.drop_last() =~= s.drop_last().update(i, e));
        assert(t.last() == s.last());
        lemma_distinct_drop_last(s);
        assert(s.drop_last()[i] == s[i]);
        lemma_map_of_update(s.drop_last(), i, e);
        assert(s[i].id@ != s.last().id@);
        assert(map_of(t) =~= map_of(s).insert(e.id@, entry_val(e)));
    }
}

/// The tracker. Its mathematical content is a map from record id to the
/// stored classification and digest; rows with distinct ids carry it.
pub struct TransactionHashData {
    transaction_map: Vec<TransactionHash>,
}

impl View for TransactionHashData {
    type V = Map<Seq<char>, (TransactionType, Seq<char>)>;

    closed spec fn view(&self) -> Map<Seq<char>, (TransactionType, Seq<char>)> {
        map_of(self.transaction_map@)
    }
}

impl TransactionHashData {
    pub closed spec fn wf(&self) -> bool {
        distinct_ids(self.transaction_map@)
    }

    fn find_index(v: &Vec<TransactionHash>, id: &String) -> (r: Option<usize>)
        ensures
            match r {
                Some(i) => i < v@.len() && v@[i as int].id@ == id@,
                None => forall|i: int| 0 <= i < v@.len() ==> v@[i].id@ != id@,
            },
    {
        let n: usize = v.len();
        let mut i: usize = 0;
        while i < n
            invariant
                i <= n,
                n == v@.len(),
                forall|j: int| 0 <= j < i ==> v@[j].id@ != id@,
            decreases n - i,
        {
            if str_eq(v[i].id.as_str(), id.as_str()) {
                return Some(i);
            }
            i = i + 1;
        }
        None
    }

    /// An empty tracker.
    pub fn empty() -> (t: Self)
        ensures
            t.wf(),
            t@ == Map::<Seq<char>, (TransactionType, Seq<char>)>::empty(),
    {
        let t = Self { transaction_map: Vec::new() };
        proof {
            assert(t@ =~= Map::<Seq<char>, (TransactionType, Seq<char>)>::empty());
        }
        t
    }

    /// Inserts a row, replacing any row that already holds its id.
    fn insert_entry(&mut self, e: TransactionHash)
        requires
            old(self).wf(),
        ensures
            final(self).wf(),
            final(self)@ == old(self)@.insert(e.id@, entry_val(e)),
    {
        match Self::find_index(&self.transaction_map, &e.id) {
            Some(i) => {
                proof {
                    lemma_map_of_update(self.transaction_map@, i as int, e);
                }
                let ghost olds = self.transaction_map@;
                self.transaction_map.set(i, e);
                proof {
                    assert forall|p: int, q: int|
                        0 <= p < q < self.transaction_map@.len() implies self.transaction_map@[p].id@
                        != self.transaction_map@[q].id@ by {
                        assert(olds[p].id@ != olds[q].id@);
                    }
                }
            }
            None => {
                let ghost olds = self.transaction_map@;
                self.transaction_map.push(e);
                proof {
                    assert(self.transaction_map@.drop_last() =~= olds);
                    assert forall|p: int, q: int|
                        0 <= p < q < self.transaction_map@.len() implies self.transaction_map@[p].id@
                        != self.transaction_map@[q].id@ by {
                        if q < self.transaction_map@.len() - 1 {
                            assert(olds[p].id@ != olds[q].id@);
                        } else {
                            assert(olds[p].id@ != e.id@);
                        }
                    }
                    assert(map_of(self.transaction_map@) == map_of(olds).insert(
                        e.id@,
                        entry_val(e),
                    ));
                }
            }
        }
    }

    /// Rebuilds a tracker from persisted rows; on a repeated id the later
    /// row wins, as `map_of` says.
    pub fn from_records(records: Vec<TransactionHash>) -> (t: Self)
        ensures
            t.wf(),
            t@ == map_of(records@),
    {
        let mut t = Self::empty();
        let n: usize = records.len();
        let mut i: usize = 0;
        proof {
            assert(records@.subrange(0, 0) =~= Seq::<TransactionHash>::empty());
        }
        while i < n
            invariant
                i <= n,
                n == records@.len(),
                t.wf(),
                t@ == map_of(records@.subrange(0, i as int)),
            decreases n - i,
        {
            let e = TransactionHash::new(
                records[i].id.clone(),
                records[i].transaction_type,
                records[i].hash.clone(),
            );
            proof {
                assert(e == records@[i as int]);
            }
            t.insert_entry(e);
            proof {
                assert(records@.subrange(0, i + 1) =~= records@.subrange(0, i as int).push(
                    records@[i as int],
                ));
                assert(records@.subrange(0, i + 1).drop_last() =~= records@.subrange(0, i as int));
                assert(t@ == map_of(records@.subrange(0, i + 1)));
            }
            i = i + 1;
        }
        proof {
            assert(records@.subrange(0, records@.len() as int) =~= records@);
        }
        t
    }

    /// Hands the tracker's rows out for persistence: they denote exactly
    /// the tracker's map, one row per id.
    pub fn to_records(&self) -> (v: Vec<TransactionHash>)
        requires
            self.wf(),
        ensures
            map_of(v@) == self@,
            distinct_ids(v@),
    {
        let n: usize = self.transaction_map.len();
        let mut v: Vec<TransactionHash> = Vec::new();
        let mut i: usize = 0;
        while i < n
            invariant
                i <= n,
                n == self.transaction_map@.len(),
                v@ =~= self.transaction_map@.subrange(0, i as int),
            decreases n - i,
        {
            let e = TransactionHash::new(
                self.transaction_map[i].id.clone(),
                self.transaction_map[i].transaction_type,
                self.transaction_map[i].hash.clone(),
            );
            proof {
                assert(e == self.transaction_map@[i as int]);
            }
            v.push(e);
            proof {
                assert(v@ =~= self.transaction_map@.subrange(0, i + 1));
            }
            i = i + 1;
        }
        proof {
            assert(self.transaction_map@.subrange(0, self.transaction_map@.len() as int)
                =~= self.transaction_map@);
            assert(v@ == self.transaction_map@);
        }
        v
    }

    /// Classifies a freshly fetched record against the stored digest.
    pub fn find_transaction(&self, transaction: &Transaction) -> (s: Status)
        requires
            self.wf(),
        ensures
            s == classify_model(self@, *transaction),
    {
        let hash = compute_fingerprint(transaction);
        proof {
            lemma_map_of_distinct(self.transaction_map@);
        }
        match Self::find_index(&self.transaction_map, &transaction.id) {
            Some(i) => {
                if self.transaction_map[i].hash == hash {
                    Status::FoundExact
                } else {
                    Status::FoundNotExact
                }
            }
            None => Status::NotFound,
        }
    }

    /// Inserts or overwrites the row for the record, under its current
    /// digest and the given classification; a record whose stored digest
    /// already matches is left untouched, classification included.
    pub fn add_transaction(&mut self, transaction: &Transaction, transaction_type: TransactionType)
        requires
            old(self).wf(),
        ensures
            final(self).wf(),
            ({
                let m = old(self)@;
                let id = transaction.id@;
                let fp = fingerprint(*transaction);
                if m.contains_key(id) && m[id].1 == fp {
                    final(self)@ == m
                } else {
                    final(self)@ == m.insert(id, (transaction_type, fp))
                }
            }),
    {
        let hash = compute_fingerprint(transaction);
        proof {
            lemma_map_of_distinct(self.transaction_map@);
        }
        match Self::find_index(&self.transaction_map, &transaction.id) {
            Some(i) => {
                if self.transaction_map[i].hash == hash {
                    return ;
                }
                let e = TransactionHash::new(transaction.id.clone(), transaction_type, hash);
                proof {
                    lemma_map_of_update(self.transaction_map@, i as int, e);
                }
                let ghost olds = self.transaction_map@;
                self.transaction_map.set(i, e);
                proof {
                    assert forall|p: int, q: int|
                        0 <= p < q < self.transaction_map@.len() implies self.transaction_map@[p].id@
                        != self.transaction_map@[q].id@ by {
                        assert(olds[p].id@ != olds[q].id@);
                    }
                }
            }
            None => {
                let e = TransactionHash::new(transaction.id.clone(), transaction_type, hash);
                let ghost olds = self.transaction_map@;
                self.transaction_map.push(e);
                proof {
                    assert(self.transaction_map@.drop_last() =~= olds);
                    assert forall|p: int, q: int|
                        0 <= p < q < self.transaction_map@.len() implies self.transaction_map@[p].id@
                        != self.transaction_map@[q].id@ by {
                        if q < self.transaction_map@.len() - 1 {
                            assert(olds[p].id@ != olds[q].id@);
                        } else {
                            assert(olds[p].id@ != e.id@);
                        }
                    }
                    assert(map_of(self.transaction_map@) == map_of(olds).insert(
                        e.id@,
                        entry_val(e),
                    ));
                }
            }
        }
    }

    /// Refreshes the stored digest of an already-tracked record, keeping
    /// its classification; an untracked id is refused.
    pub fn update_transaction(&mut self, transaction: &Transaction) -> (r: Result<
        (),
        ReconciliationError,
    >)
        requires
            old(self).wf(),
        ensures
            final(self).wf(),
            match r {
                Ok(()) => old(self)@.contains_key(transaction.id@) && final(self)@ == old(
                    self,
                )@.insert(
                    transaction.id@,
                    (old(self)@[transaction.id@].0, fingerprint(*transaction)),
                ),
                Err(e) => {
                    &&& e == ReconciliationError::Untracked
                    &&& !old(self)@.contains_key(transaction.id@)
                    &&& final(self)@ == old(self)@
                },
            },
    {
        let hash = compute_fingerprint(transaction);
        proof {
            lemma_map_of_distinct(self.transaction_map@);
        }
        match Self::find_index(&self.transaction_map, &transaction.id) {
            Some(i) => {
                let e = TransactionHash::new(
                    transaction.id.clone(),
                    self.transaction_map[i].transaction_type,
                    hash,
                );
                proof {
                    lemma_map_of_update(self.transaction_map@, i as int, e);
                }
                let ghost olds = self.transaction_map@;
                self.transaction_map.set(i, e);
                proof {
                    assert forall|p: int, q: int|
                        0 <= p < q < self.transaction_map@.len() implies self.transaction_map@[p].id@
                        != self.transaction_map@[q].id@ by {
                        assert(olds[p].id@ != olds[q].id@);
                    }
                }
                Ok(())
            }
            None => Err(ReconciliationError::Untracked),
        }
    }
}

/// Recording a record makes it classify as unchanged on the next run.
pub proof fn lemma_classify_after_record(
    m: Map<Seq<char>, (TransactionType, Seq<char>)>,
    tx: Transaction,
    t: TransactionType,
)
    ensures
        classify_model(m.insert(tx.id@, (t, fingerprint(tx))), tx) == Status::FoundExact,
{
}

/// Recording one record leaves every other record's classification alone.
pub proof fn lemma_record_elsewhere_preserves_classify(
    m: Map<Seq<char>, (TransactionType, Seq<char>)>,
    tx: Transaction,
    k: Seq<char>,
    val: (TransactionType, Seq<char>),
)
    requires
        k != tx.id@,
    ensures
        classify_model(m.insert(k, val), tx) == classify_model(m, tx),
{
}

/// The tracker state after a whole run records every fetched record under
/// its current digest.
pub open spec fn recorded_after(
    m: Map<Seq<char>, (TransactionType, Seq<char>)>,
    txs: Seq<Transaction>,
    types: Seq<TransactionType>,
) -> Map<Seq<char>, (TransactionType, Seq<char>)>
    decreases txs.len(),
{
    if txs.len() == 0 || types.len() == 0 {
        m
    } else {
        recorded_after(
            m.insert(txs[0].id@, (types[0], fingerprint(txs[0]))),
            txs.drop_first(),
            types.drop_first(),
        )
    }
}

proof fn lemma_recorded_after_frame(
    m: Map<Seq<char>, (TransactionType, Seq<char>)>,
    txs: Seq<Transaction>,
    types: Seq<TransactionType>,
    k: Seq<char>,
)
    requires
        forall|i: int| 0 <= i < txs.len() ==> txs[i].id@ != k,
    ensures
        recorded_after(m, txs, types).contains_key(k) == m.contains_key(k),
        m.contains_key(k) ==> recorded_after(m, txs, types)[k] == m[k],
    decreases txs.len(),
{
    if txs.len() > 0 && types.len() > 0 {
        assert(txs[0].id@ != k);
        assert(forall|i: int|
            0 <= i < txs.drop_first().len() ==> #[trigger] txs.drop_first()[i].id@ != k);
        lemma_recorded_after_frame(
            m.insert(txs[0].id@, (types[0], fingerprint(txs[0]))),
            txs.drop_first(),
            types.drop_first(),
            k,
        );
    }
}

/// Idempotence: after a run that recorded every fetched record (each id
/// occurring once), re-classifying any of those records finds it unchanged,
/// so a second run over unchanged data performs no creates and no updates.
pub proof fn lemma_idempotent_rerun(
    m: Map<Seq<char>, (TransactionType, Seq<char>)>,
    txs: Seq<Transaction>,
    types: Seq<TransactionType>,
)
    requires
        types.len() == txs.len(),
        forall|i: int, j: int| 0 <= i < j < txs.len() ==> txs[i].id@ != txs[j].id@,
    ensures
        forall|i: int|
            0 <= i < txs.len() ==> classify_model(recorded_after(m, txs, types), txs[i])
                == Status::FoundExact,
    decreases txs.len(),
{
    if txs.len() > 0 {
        let m1 = m.insert(txs[0].id@, (types[0], fingerprint(txs[0])));
        assert forall|i: int, j: int|
            0 <= i < j < txs.drop_first().len() implies txs.drop_first()[i].id@
            != txs.drop_first()[j].id@ by {
            assert(txs.drop_first()[i] == txs[i + 1]);
            assert(txs.drop_first()[j] == txs[j + 1]);
        }
        lemma_idempotent_rerun(m1, txs.drop_first(), types.drop_first());
        assert(forall|i: int|
            0 <= i < txs.drop_first().len() ==> txs.drop_first()[i].id@ != txs[0].id@);
        lemma_recorded_after_frame(m1, txs.drop_first(), types.drop_first(), txs[0].id@);
        assert(classify_model(recorded_after(m, txs, types), txs[0]) == Status::FoundExact);
        assert forall|i: int|
            0 <= i < txs.len() implies classify_model(recorded_after(m, txs, types), txs[i])
            == Status::FoundExact by {
            if i > 0 {
                assert(txs.drop_first()[i - 1] == txs[i]);
            }
        }
    }
}

/// Change detection: a tracked record whose category or tags were edited
/// remotely classifies as changed on the next run.
pub proof fn lemma_change_detection(
    m: Map<Seq<char>, (TransactionType, Seq<char>)>,
    old_tx: Transaction,
    new_tx: Transaction,
)
    requires
        m.contains_key(old_tx.id@),
        m[old_tx.id@].1 == fingerprint(old_tx),
        new_tx.id@ == old_tx.id@,
        data_view(new_tx.relationships.category.data) != data_view(
            old_tx.relationships.category.data,
        ) || tags_view(new_tx.relationships.tags.data@) != tags_view(
            old_tx.relationships.tags.data@,
        ),
    ensures
        classify_model(m, new_tx) == Status::FoundNotExact,
{
    if fingerprint(new_tx) == fingerprint(old_tx) {
        lemma_fingerprint_injective(new_tx, old_tx);
        assert(false);
    }
}

/// Round trip: rows handed out by `to_records` rebuild, through
/// `from_records`, a tracker that classifies every record exactly as the
/// original did.
pub proof fn lemma_round_trip(
    t: TransactionHashData,
    records: Seq<TransactionHash>,
    t2: TransactionHashData,
    tx: Transaction,
)
    requires
        map_of(records) == t@,
        t2@ == map_of(records),
    ensures
        classify_model(t2@, tx) == classify_model(t@, tx),
{
}

} // verus!
