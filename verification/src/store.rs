//! Transaction-lifecycle store.
//!
//! One record per logical transaction, keyed by the content address of its
//! inputs (`inputs_hash`); a fee-bump replacement re-uses the row, it never
//! creates a second one.  Replacement events and mempool snapshots are
//! append-only.  An unset timestamp is the sentinel zero, never absence;
//! `mined_at` and `pruned_at` are mutually exclusive terminal states.

use vstd::prelude::*;

use crate::tx::{
    bytes_eq, content_hash_bytes, copy_bytes, inputs_hash_bytes, is_coinbase_tx, stored_bytes,
    stored_bytes_of, Tx, TxV,
};

verus! {

/// Mathematical view of one lifecycle record.
#[verifier::ext_equal]
pub struct RecordV {
    pub inputs_hash: Seq<u8>,
    pub txid: Seq<u8>,
    pub raw_bytes: Seq<u8>,
    pub found_at: u64,
    pub mined_at: u64,
    pub pruned_at: u64,
    pub mempool_size: u64,
    pub mempool_tx_count: u64,
    pub parent_txid: Option<Seq<u8>>,
}

/// One row of the transactions table.
pub struct TransactionRecord {
    pub inputs_hash: Vec<u8>,
    pub txid: Vec<u8>,
    pub raw_bytes: Vec<u8>,
    pub found_at: u64,
    pub mined_at: u64,
    pub pruned_at: u64,
    pub mempool_size: u64,
    pub mempool_tx_count: u64,
    pub parent_txid: Option<Vec<u8>>,
}

impl View for TransactionRecord {
    type V = RecordV;

    open spec fn view(&self) -> RecordV {
        RecordV {
            inputs_hash: self.inputs_hash@,
            txid: self.txid@,
            raw_bytes: self.raw_bytes@,
            found_at: self.found_at,
            mined_at: self.mined_at,
            pruned_at: self.pruned_at,
            mempool_size: self.mempool_size,
            mempool_tx_count: self.mempool_tx_count,
            parent_txid: match self.parent_txid {
                Some(p) => Some(p@),
                None => None,
            },
        }
    }
}

/// Mathematical view of one observed fee-bump event.
#[verifier::ext_equal]
pub struct ReplacementV {
    pub inputs_hash: Seq<u8>,
    pub created_at: u64,
    pub fee_total: u64,
}

/// One row of the append-only replacements table.
pub struct ReplacementEvent {
    pub inputs_hash: Vec<u8>,
    pub created_at: u64,
    pub fee_total: u64,
}

impl View for ReplacementEvent {
    type V = ReplacementV;

    open spec fn view(&self) -> ReplacementV {
        ReplacementV {
            inputs_hash: self.inputs_hash@,
            created_at: self.created_at,
            fee_total: self.fee_total,
        }
    }
}

/// Mathematical view of one mempool snapshot.
#[verifier::ext_equal]
pub struct SnapshotV {
    pub recorded_at: u64,
    pub mempool_size: u64,
    pub mempool_tx_count: u64,
    pub block_height: u64,
    pub block_hash: Seq<u8>,
}

/// One row of the append-only mempool-snapshot time series.
pub struct MempoolSnapshot {
    pub recorded_at: u64,
    pub mempool_size: u64,
    pub mempool_tx_count: u64,
    pub block_height: u64,
    pub block_hash: Vec<u8>,
}

impl View for MempoolSnapshot {
    type V = SnapshotV;

    open spec fn view(&self) -> SnapshotV {
        SnapshotV {
            recorded_at: self.recorded_at,
            mempool_size: self.mempool_size,
            mempool_tx_count: self.mempool_tx_count,
            block_height: self.block_height,
            block_hash: self.block_hash@,
        }
    }
}

/// Mathematical view of the whole store.
#[verifier::ext_equal]
pub struct StoreV {
    pub records: Seq<RecordV>,
    pub replacements: Seq<ReplacementV>,
    pub snapshots: Seq<SnapshotV>,
}

/// The transaction-lifecycle store: the transactions table, the replacement
/// history and the mempool-snapshot time series.
pub struct Store {
    pub records: Vec<TransactionRecord>,
    pub replacements: Vec<ReplacementEvent>,
    pub snapshots: Vec<MempoolSnapshot>,
}

impl View for Store {
    type V = StoreV;

    open spec fn view(&self) -> StoreV {
        StoreV {
            records: self.records@.map_values(|r: TransactionRecord| r@),
            replacements: self.replacements@.map_values(|r: ReplacementEvent| r@),
            snapshots: self.snapshots@.map_values(|s: MempoolSnapshot| s@),
        }
    }
}

/// Failure of a lookup-then-update operation: no record for the key.
#[derive(Clone, Copy, Debug, PartialEq, Eq, Structural)]
pub enum StoreError {
    NotFound,
}

/// Whether some record carries this key.
pub open spec fn has_key(rs: Seq<RecordV>, h: Seq<u8>) -> bool {
    exists|i: int| 0 <= i < rs.len() && rs[i].inputs_hash == h
}

/// Exactly one row per key.
pub open spec fn keys_unique(rs: Seq<RecordV>) -> bool {
    forall|i: int, j: int| 0 <= i < j < rs.len() ==> rs[i].inputs_hash != rs[j].inputs_hash
}

/// The two terminal timestamps are never both set.
pub open spec fn terminal_exclusive(rs: Seq<RecordV>) -> bool {
    forall|i: int| 0 <= i < rs.len() ==> !(rs[i].mined_at != 0 && rs[i].pruned_at != 0)
}

/// Well-formedness of a store: the data-model invariants.
pub open spec fn store_wf(s: StoreV) -> bool {
    keys_unique(s.records) && terminal_exclusive(s.records)
}

/// The store key of a non-coinbase transaction: its inputs' content address.
pub open spec fn tx_key(t: TxV) -> Seq<u8> {
    content_hash_bytes(t.inputs)
}

/// Whether the transaction spends an output of the transaction with this id.
pub open spec fn spends_txid(t: TxV, txid: Seq<u8>) -> bool {
    exists|i: int| 0 <= i < t.inputs.len() && t.inputs[i].prev_txid == txid
}

/// An explicit found-time, or the sentinel.
pub open spec fn opt_or_zero(o: Option<u64>) -> u64 {
    match o {
        Some(v) => v,
        None => 0,
    }
}

/// The record a first observation writes: terminal timestamps unset, bytes
/// witness-stripped, no parent link.
pub open spec fn fresh_record(t: TxV, found_at: u64, size: u64, count: u64) -> RecordV {
    RecordV {
        inputs_hash: tx_key(t),
        txid: t.txid,
        raw_bytes: stored_bytes_of(t.raw),
        found_at: found_at,
        mined_at: 0,
        pruned_at: 0,
        mempool_size: size,
        mempool_tx_count: count,
        parent_txid: None,
    }
}

/// The record with its parent link set to this child id.
pub open spec fn with_parent(r: RecordV, child: Seq<u8>) -> RecordV {
    RecordV { parent_txid: Some(child), ..r }
}

/// The transactions table after `insert_or_update`: every record whose id the
/// new transaction spends gets its parent link set (last writer wins), the
/// row with the transaction's key is replaced by a fresh record, and when no
/// row has that key a fresh record is appended.
pub open spec fn insert_records(
    rs: Seq<RecordV>,
    t: TxV,
    found_at: u64,
    size: u64,
    count: u64,
) -> Seq<RecordV> {
    let fresh = fresh_record(t, found_at, size, count);
    let updated = Seq::new(
        rs.len(),
        |j: int|
            if rs[j].inputs_hash == tx_key(t) {
                fresh
            } else if spends_txid(t, rs[j].txid) {
                with_parent(rs[j], t.txid)
            } else {
                rs[j]
            },
    );
    if has_key(rs, tx_key(t)) {
        updated
    } else {
        updated.push(fresh)
    }
}

/// The store after `insert_or_update`.
pub open spec fn insert_spec(s: StoreV, t: TxV, found_at: u64, size: u64, count: u64) -> StoreV {
    StoreV { records: insert_records(s.records, t, found_at, size, count), ..s }
}

/// The record a coinbase observation writes: keyed by the transaction's own
/// id, mined at insertion, bytes as given.
pub open spec fn coinbase_record(t: TxV, now: u64, size: u64, count: u64) -> RecordV {
    RecordV {
        inputs_hash: t.txid,
        txid: t.txid,
        raw_bytes: t.raw,
        found_at: now,
        mined_at: now,
        pruned_at: 0,
        mempool_size: size,
        mempool_tx_count: count,
        parent_txid: None,
    }
}

/// The transactions table after `record_coinbase` of a coinbase transaction.
pub open spec fn coinbase_records(
    rs: Seq<RecordV>,
    t: TxV,
    now: u64,
    size: u64,
    count: u64,
) -> Seq<RecordV> {
    let fresh = coinbase_record(t, now, size, count);
    let updated = Seq::new(
        rs.len(),
        |j: int|
            if rs[j].inputs_hash == t.txid {
                fresh
            } else {
                rs[j]
            },
    );
    if has_key(rs, t.txid) {
        updated
    } else {
        updated.push(fresh)
    }
}

/// The store after `record_coinbase`: unchanged unless the transaction is a
/// coinbase one.
pub open spec fn coinbase_spec(s: StoreV, t: TxV, now: u64, size: u64, count: u64) -> StoreV {
    if is_coinbase_tx(t) {
        StoreV { records: coinbase_records(s.records, t, now, size, count), ..s }
    } else {
        s
    }
}

/// The transactions table after `record_mined`: the row with the
/// transaction's key gets `mined_at` set and its bytes refreshed, unless it
/// already reached the pruned terminal state.
pub open spec fn mined_records(rs: Seq<RecordV>, t: TxV, now: u64) -> Seq<RecordV> {
    Seq::new(
        rs.len(),
        |j: int|
            if rs[j].inputs_hash == tx_key(t) && rs[j].pruned_at == 0 {
                RecordV { mined_at: now, raw_bytes: stored_bytes_of(t.raw), ..rs[j] }
            } else {
                rs[j]
            },
    )
}

/// The store after a successful `record_mined`.
pub open spec fn mined_spec(s: StoreV, t: TxV, now: u64) -> StoreV {
    StoreV { records: mined_records(s.records, t, now), ..s }
}

/// The transactions table after `record_rbf`: the row with the transaction's
/// key advances to the replacing transaction's id and bytes.
pub open spec fn rbf_records(rs: Seq<RecordV>, t: TxV) -> Seq<RecordV> {
    Seq::new(
        rs.len(),
        |j: int|
            if rs[j].inputs_hash == tx_key(t) {
                RecordV { txid: t.txid, raw_bytes: stored_bytes_of(t.raw), ..rs[j] }
            } else {
                rs[j]
            },
    )
}

/// The store after a successful `record_rbf`: the row advances and exactly
/// one replacement event is appended.
pub open spec fn rbf_spec(s: StoreV, t: TxV, fee_total: u64, now: u64) -> StoreV {
    StoreV {
        records: rbf_records(s.records, t),
        replacements: s.replacements.push(
            ReplacementV { inputs_hash: tx_key(t), created_at: now, fee_total: fee_total },
        ),
        snapshots: s.snapshots,
    }
}

/// The transactions table after `record_pruned_batch`: every outstanding
/// (non-terminal) record whose id is in the batch gets `pruned_at` set;
/// records already mined or pruned are untouched.
pub open spec fn pruned_records(rs: Seq<RecordV>, gone: Seq<Seq<u8>>, now: u64) -> Seq<RecordV> {
    Seq::new(
        rs.len(),
        |j: int|
            if rs[j].mined_at == 0 && rs[j].pruned_at == 0 && gone.contains(rs[j].txid) {
                RecordV { pruned_at: now, ..rs[j] }
            } else {
                rs[j]
            },
    )
}

/// The store after `record_pruned_batch`.
pub open spec fn pruned_spec(s: StoreV, gone: Seq<Seq<u8>>, now: u64) -> StoreV {
    StoreV { records: pruned_records(s.records, gone, now), ..s }
}

/// The ids of the outstanding (non-terminal) records that are absent from
/// the given current-mempool id list, in table order.
pub open spec fn outstanding_missing(rs: Seq<RecordV>, current: Seq<Seq<u8>>) -> Seq<Seq<u8>>
    decreases rs.len(),
{
    if rs.len() == 0 {
        Seq::empty()
    } else {
        let rest = outstanding_missing(rs.drop_last(), current);
        let r = rs.last();
        if r.mined_at == 0 && r.pruned_at == 0 && !current.contains(r.txid) {
            rest.push(r.txid)
        } else {
            rest
        }
    }
}

/// The store after `record_mempool_state`: one snapshot row appended.
pub open spec fn snapshot_spec(
    s: StoreV,
    size: u64,
    count: u64,
    height: u64,
    hash: Seq<u8>,
    now: u64,
) -> StoreV {
    StoreV {
        records: s.records,
        replacements: s.replacements,
        snapshots: s.snapshots.push(
            SnapshotV {
                recorded_at: now,
                mempool_size: size,
                mempool_tx_count: count,
                block_height: height,
                block_hash: hash,
            },
        ),
    }
}

/// A copy of one record, field for field.
fn clone_record(r: &TransactionRecord) -> (c: TransactionRecord)
    ensures
        c@ == r@,
{
    TransactionRecord {
        inputs_hash: copy_bytes(&r.inputs_hash),
        txid: copy_bytes(&r.txid),
        raw_bytes: copy_bytes(&r.raw_bytes),
        found_at: r.found_at,
        mined_at: r.mined_at,
        pruned_at: r.pruned_at,
        mempool_size: r.mempool_size,
        mempool_tx_count: r.mempool_tx_count,
        parent_txid: match &r.parent_txid {
            Some(p) => Some(copy_bytes(p)),
            None => None,
        },
    }
}

/// Whether the transaction spends an output of the transaction with this id.
fn tx_spends(tx: &Tx, txid: &Vec<u8>) -> (r: bool)
    ensures
        r == spends_txid(tx@, txid@),
{
    let mut i: usize = 0;
    while i < tx.inputs.len()
        invariant
            i <= tx.inputs.len(),
            forall|k: int| 0 <= k < i ==> tx@.inputs[k].prev_txid != txid@,
        decreases tx.inputs.len() - i,
    {
        if bytes_eq(&tx.inputs[i].prev_txid, txid) {
            assert(tx@.inputs[i as int].prev_txid == txid@);
            return true;
        }
        i = i + 1;
    }
    false
}

/// Whether the list holds these bytes.
fn contains_bytes(list: &Vec<Vec<u8>>, needle: &Vec<u8>) -> (r: bool)
    ensures
        r == list.deep_view().contains(needle@),
{
    let mut i: usize = 0;
    while i < list.len()
        invariant
            i <= list.len(),
            forall|k: int| 0 <= k < i ==> list.deep_view()[k] != needle@,
        decreases list.len() - i,
    {
        proof {
            assert(list.deep_view()[i as int] =~= list@[i as int]@);
        }
        if bytes_eq(&list[i], needle) {
            assert(list.deep_view()[i as int] == needle@);
            return true;
        }
        i = i + 1;
    }
    assert(!list.deep_view().contains(needle@));
    false
}

/// The fresh record for a first observation of this transaction.
fn make_fresh(tx: &Tx, key: &Vec<u8>, found_at: u64, size: u64, count: u64) -> (c:
    TransactionRecord)
    requires
        key@ == tx_key(tx@),
    ensures
        c@ == fresh_record(tx@, found_at, size, count),
{
    TransactionRecord {
        inputs_hash: copy_bytes(key),
        txid: copy_bytes(&tx.txid),
        raw_bytes: stored_bytes(&tx.raw),
        found_at: found_at,
        mined_at: 0,
        pruned_at: 0,
        mempool_size: size,
        mempool_tx_count: count,
        parent_txid: None,
    }
}

impl Store {
    /// An empty store.
    pub fn new() -> (s: Store)
        ensures
            s@.records.len() == 0,
            s@.replacements.len() == 0,
            s@.snapshots.len() == 0,
            store_wf(s@),
    {
        let s = Store { records: Vec::new(), replacements: Vec::new(), snapshots: Vec::new() };
        proof {
            assert(s@.records =~= Seq::<RecordV>::empty());
        }
        s
    }

    /// Well-formedness: the data-model invariants of the record table.
    pub open spec fn wf(self) -> bool {
        store_wf(self@)
    }

    /// The index of the record with this key, if any.
    fn find_index(&self, key: &Vec<u8>) -> (r: Option<usize>)
        ensures
            match r {
                Some(i) => i < self.records.len() && self@.records[i as int].inputs_hash == key@,
                None => !has_key(self@.records, key@),
            },
    {
        let mut i: usize = 0;
        while i < self.records.len()
            invariant
                i <= self.records.len(),
                forall|k: int| 0 <= k < i ==> self@.records[k].inputs_hash != key@,
            decreases self.records.len() - i,
        {
            if bytes_eq(&self.records[i].inputs_hash, key) {
                return Some(i);
            }
            i = i + 1;
        }
        None
    }

    /// Whether a record exists for the transaction's inputs-hash key.
    pub fn tx_exists(&self, tx: &Tx) -> (r: bool)
        ensures
            r == has_key(self@.records, tx_key(tx@)),
    {
        let key = inputs_hash_bytes(&tx.inputs);
        match self.find_index(&key) {
            Some(_) => true,
            None => false,
        }
    }

    /// The record with this key, if any.
    pub fn lookup(&self, key: &Vec<u8>) -> (r: Option<&TransactionRecord>)
        ensures
            r is Some <==> has_key(self@.records, key@),
            r matches Some(rec) ==> exists|i: int|
                0 <= i < self@.records.len() && self@.records[i] == rec@
                    && rec@.inputs_hash == key@,
    {
        match self.find_index(key) {
            Some(i) => {
                let rec = &self.records[i];
                assert(self@.records[i as int] == rec@);
                Some(rec)
            },
            None => None,
        }
    }

    /// First observation of a transaction (backfill or live stream): links
    /// parents, then inserts a fresh record for its key, or replaces the row
    /// that carries the key.  The stored bytes are witness-stripped.
    pub fn insert_or_update(
        &mut self,
        tx: &Tx,
        found_at: Option<u64>,
        mempool_size: u64,
        mempool_tx_count: u64,
    )
        requires
            old(self).wf(),
        ensures
            final(self).wf(),
            final(self)@ == insert_spec(
                old(self)@,
                tx@,
                opt_or_zero(found_at),
                mempool_size,
                mempool_tx_count,
            ),
    {
        let found_val: u64 = match found_at {
            Some(v) => v,
            None => 0,
        };
        let key = inputs_hash_bytes(&tx.inputs);
        let ghost rs = self@.records;
        let ghost fresh = fresh_record(tx@, found_val, mempool_size, mempool_tx_count);
        let ghost target = Seq::new(
            rs.len(),
            |j: int|
                if rs[j].inputs_hash == tx_key(tx@) {
                    fresh
                } else if spends_txid(tx@, rs[j].txid) {
                    with_parent(rs[j], tx@.txid)
                } else {
                    rs[j]
                },
        );
        let mut new_records: Vec<TransactionRecord> = Vec::new();
        let mut found: bool = false;
        let mut j: usize = 0;
        while j < self.records.len()
            invariant
                j <= self.records.len(),
                rs == self@.records,
                fresh == fresh_record(tx@, found_val, mempool_size, mempool_tx_count),
                target == Seq::new(
                    rs.len(),
                    |j: int|
                        if rs[j].inputs_hash == tx_key(tx@) {
                            fresh
                        } else if spends_txid(tx@, rs[j].txid) {
                            with_parent(rs[j], tx@.txid)
                        } else {
                            rs[j]
                        },
                ),
                key@ == tx_key(tx@),
                new_records@.len() == j,
                forall|k: int| 0 <= k < j ==> new_records@[k]@ == target[k],
                found <==> exists|k: int| 0 <= k < j && rs[k].inputs_hash == key@,
            decreases self.records.len() - j,
        {
            let r = &self.records[j];
            assert(r@ == rs[j as int]);
            if bytes_eq(&r.inputs_hash, &key) {
                new_records.push(make_fresh(tx, &key, found_val, mempool_size, mempool_tx_count));
                found = true;
            } else if tx_spends(tx, &r.txid) {
                let mut c = clone_record(r);
                c.parent_txid = Some(copy_bytes(&tx.txid));
                assert(c@ == with_parent(rs[j as int], tx@.txid));
                new_records.push(c);
            } else {
                new_records.push(clone_record(r));
            }
            j = j + 1;
        }
        if !found {
            new_records.push(make_fresh(tx, &key, found_val, mempool_size, mempool_tx_count));
        }
        self.records = new_records;
        proof {
            if found {
                assert(has_key(rs, tx_key(tx@)));
                assert(self@.records =~= target);
            } else {
                assert(!has_key(rs, tx_key(tx@)));
                assert(self@.records =~= target.push(fresh));
            }
            assert(self@ =~= insert_spec(
                old(self)@,
                tx@,
                opt_or_zero(found_at),
                mempool_size,
                mempool_tx_count,
            ));
            assert forall|a: int, b: int|
                0 <= a < b < self@.records.len() implies self@.records[a].inputs_hash
                != self@.records[b].inputs_hash by {
                if b < rs.len() {
                    assert(self@.records[a].inputs_hash == rs[a].inputs_hash);
                    assert(self@.records[b].inputs_hash == rs[b].inputs_hash);
                } else {
                    assert(self@.records[a].inputs_hash == rs[a].inputs_hash);
                    assert(!has_key(rs, tx_key(tx@)));
                }
            }
        }
    }

    /// Records a coinbase transaction, keyed by its own id, mined at
    /// insertion; a no-op for any other transaction.
    pub fn record_coinbase(&mut self, tx: &Tx, mempool_size: u64, mempool_tx_count: u64, now: u64)
        requires
            old(self).wf(),
        ensures
            final(self).wf(),
            final(self)@ == coinbase_spec(old(self)@, tx@, now, mempool_size, mempool_tx_count),
    {
        if !tx.is_coinbase() {
            return ;
        }
        let ghost rs = self@.records;
        let ghost fresh = coinbase_record(tx@, now, mempool_size, mempool_tx_count);
        let ghost target = Seq::new(
            rs.len(),
            |j: int|
                if rs[j].inputs_hash == tx@.txid {
                    fresh
                } else {
                    rs[j]
                },
        );
        let mut new_records: Vec<TransactionRecord> = Vec::new();
        let mut found: bool = false;
        let mut j: usize = 0;
        while j < self.records.len()
            invariant
                j <= self.records.len(),
                rs == self@.records,
                fresh == coinbase_record(tx@, now, mempool_size, mempool_tx_count),
                target == Seq::new(
                    rs.len(),
                    |j: int|
                        if rs[j].inputs_hash == tx@.txid {
                            fresh
                        } else {
                            rs[j]
                        },
                ),
                new_records@.len() == j,
                forall|k: int| 0 <= k < j ==> new_records@[k]@ == target[k],
                found <==> exists|k: int| 0 <= k < j && rs[k].inputs_hash == tx@.txid,
            decreases self.records.len() - j,
        {
            let r = &self.records[j];
            assert(r@ == rs[j as int]);
            if bytes_eq(&r.inputs_hash, &tx.txid) {
                new_records.push(TransactionRecord {
                    inputs_hash: copy_bytes(&tx.txid),
                    txid: copy_bytes(&tx.txid),
                    raw_bytes: copy_bytes(&tx.raw),
                    found_at: now,
                    mined_at: now,
                    pruned_at: 0,
                    mempool_size: mempool_size,
                    mempool_tx_count: mempool_tx_count,
                    parent_txid: None,
                });
                found = true;
            } else {
                new_records.push(clone_record(r));
            }
            j = j + 1;
        }
        if !found {
            new_records.push(TransactionRecord {
                inputs_hash: copy_bytes(&tx.txid),
                txid: copy_bytes(&tx.txid),
                raw_bytes: copy_bytes(&tx.raw),
                found_at: now,
                mined_at: now,
                pruned_at: 0,
                mempool_size: mempool_size,
                mempool_tx_count: mempool_tx_count,
                parent_txid: None,
            });
        }
        self.records = new_records;
        proof {
            if found {
                assert(has_key(rs, tx@.txid));
                assert(self@.records =~= target);
            } else {
                assert(!has_key(rs, tx@.txid));
                assert(self@.records =~= target.push(fresh));
            }
            assert(self@ =~= coinbase_spec(old(self)@, tx@, now, mempool_size, mempool_tx_count));
            assert forall|a: int, b: int|
                0 <= a < b < self@.records.len() implies self@.records[a].inputs_hash
                != self@.records[b].inputs_hash by {
                if b < rs.len() {
                    assert(self@.records[a].inputs_hash == rs[a].inputs_hash);
                    assert(self@.records[b].inputs_hash == rs[b].inputs_hash);
                } else {
                    assert(self@.records[a].inputs_hash == rs[a].inputs_hash);
                    assert(!has_key(rs, tx@.txid));
                }
            }
        }
    }

    /// Marks the record for this transaction's key as mined now and
    /// refreshes its stored bytes; `NotFound` when no record has the key.
    /// A record already in the pruned terminal state is left unchanged.
    pub fn record_mined(&mut self, tx: &Tx, now: u64) -> (r: Result<(), StoreError>)
        requires
            old(self).wf(),
        ensures
            final(self).wf(),
            r is Ok <==> has_key(old(self)@.records, tx_key(tx@)),
            r is Ok ==> final(self)@ == mined_spec(old(self)@, tx@, now),
            r is Err ==> final(self)@ == old(self)@,
    {
        let key = inputs_hash_bytes(&tx.inputs);
        let ghost rs = self@.records;
        match self.find_index(&key) {
            None => Err(StoreError::NotFound),
            Some(_) => {
                let ghost target = mined_records(rs, tx@, now);
                let mut new_records: Vec<TransactionRecord> = Vec::new();
                let mut j: usize = 0;
                while j < self.records.len()
                    invariant
                        j <= self.records.len(),
                        rs == self@.records,
                        key@ == tx_key(tx@),
                        target == mined_records(rs, tx@, now),
                        new_records@.len() == j,
                        forall|k: int| 0 <= k < j ==> new_records@[k]@ == target[k],
                    decreases self.records.len() - j,
                {
                    let r = &self.records[j];
                    assert(r@ == rs[j as int]);
                    if r.pruned_at == 0 && bytes_eq(&r.inputs_hash, &key) {
                        let mut c = clone_record(r);
                        c.mined_at = now;
                        c.raw_bytes = stored_bytes(&tx.raw);
                        new_records.push(c);
                    } else {
                        new_records.push(clone_record(r));
                    }
                    j = j + 1;
                }
                self.records = new_records;
                proof {
                    assert(self@.records =~= target);
                    assert(self@ =~= mined_spec(old(self)@, tx@, now));
                }
                Ok(())
            },
        }
    }

    /// Appends one replacement event for this transaction's key and advances
    /// the record to the replacing transaction's id and stored bytes;
    /// `NotFound` (and no change at all) when no record has the key.
    pub fn record_rbf(&mut self, tx: &Tx, fee_total: u64, now: u64) -> (r: Result<
        (),
        StoreError,
    >)
        requires
            old(self).wf(),
        ensures
            final(self).wf(),
            r is Ok <==> has_key(old(self)@.records, tx_key(tx@)),
            r is Ok ==> final(self)@ == rbf_spec(old(self)@, tx@, fee_total, now),
            r is Err ==> final(self)@ == old(self)@,
    {
        let key = inputs_hash_bytes(&tx.inputs);
        let ghost rs = self@.records;
        match self.find_index(&key) {
            None => Err(StoreError::NotFound),
            Some(_) => {
                let ghost target = rbf_records(rs, tx@);
                let mut new_records: Vec<TransactionRecord> = Vec::new();
                let mut j: usize = 0;
                while j < self.records.len()
                    invariant
                        j <= self.records.len(),
                        rs == self@.records,
                        key@ == tx_key(tx@),
                        target == rbf_records(rs, tx@),
                        new_records@.len() == j,
                        forall|k: int| 0 <= k < j ==> new_records@[k]@ == target[k],
                    decreases self.records.len() - j,
                {
                    let r = &self.records[j];
                    assert(r@ == rs[j as int]);
                    if bytes_eq(&r.inputs_hash, &key) {
                        let mut c = clone_record(r);
                        c.txid = copy_bytes(&tx.txid);
                        c.raw_bytes = stored_bytes(&tx.raw);
                        new_records.push(c);
                    } else {
                        new_records.push(clone_record(r));
                    }
                    j = j + 1;
                }
                self.records = new_records;
                self.replacements.push(ReplacementEvent {
                    inputs_hash: copy_bytes(&key),
                    created_at: now,
                    fee_total: fee_total,
                });
                proof {
                    assert(self@.records =~= target);
                    assert(self@.replacements =~= old(self)@.replacements.push(
                        ReplacementV { inputs_hash: tx_key(tx@), created_at: now, fee_total },
                    ));
                    assert(self@ =~= rbf_spec(old(self)@, tx@, fee_total, now));
                }
                Ok(())
            },
        }
    }

    /// Marks every outstanding (non-terminal) record whose id is in the
    /// batch as pruned now; records already mined or pruned are untouched.
    pub fn record_pruned_batch(&mut self, gone: &Vec<Vec<u8>>, now: u64)
        requires
            old(self).wf(),
        ensures
            final(self).wf(),
            final(self)@ == pruned_spec(old(self)@, gone.deep_view(), now),
    {
        let ghost rs = self@.records;
        let ghost target = pruned_records(rs, gone.deep_view(), now);
        let mut new_records: Vec<TransactionRecord> = Vec::new();
        let mut j: usize = 0;
        while j < self.records.len()
            invariant
                j <= self.records.len(),
                rs == self@.records,
                target == pruned_records(rs, gone.deep_view(), now),
                new_records@.len() == j,
                forall|k: int| 0 <= k < j ==> new_records@[k]@ == target[k],
            decreases self.records.len() - j,
        {
            let r = &self.records[j];
            assert(r@ == rs[j as int]);
            if r.mined_at == 0 && r.pruned_at == 0 && contains_bytes(gone, &r.txid) {
                let mut c = clone_record(r);
                c.pruned_at = now;
                new_records.push(c);
            } else {
                new_records.push(clone_record(r));
            }
            j = j + 1;
        }
        self.records = new_records;
        proof {
            assert(self@.records =~= target);
            assert(self@ =~= pruned_spec(old(self)@, gone.deep_view(), now));
        }
    }

    /// The ids of the outstanding records absent from the current mempool:
    /// the batch a prune sweep should mark.
    pub fn outstanding_txids_not_in(&self, current: &Vec<Vec<u8>>) -> (r: Vec<Vec<u8>>)
        ensures
            r.deep_view() == outstanding_missing(self@.records, current.deep_view()),
    {
        let ghost rs = self@.records;
        let mut out: Vec<Vec<u8>> = Vec::new();
        let mut j: usize = 0;
        assert(out.deep_view() =~= outstanding_missing(rs.take(0), current.deep_view()));
        while j < self.records.len()
            invariant
                j <= self.records.len(),
                rs == self@.records,
                out.deep_view() == outstanding_missing(rs.take(j as int), current.deep_view()),
            decreases self.records.len() - j,
        {
            let r = &self.records[j];
            assert(r@ == rs[j as int]);
            proof {
                assert(rs.take(j + 1 as int).drop_last() =~= rs.take(j as int));
                assert(rs.take(j + 1 as int).last() == rs[j as int]);
            }
            if r.mined_at == 0 && r.pruned_at == 0 && !contains_bytes(current, &r.txid) {
                let ghost prev = out.deep_view();
                let t = copy_bytes(&r.txid);
                proof {
                    assert(t.deep_view() =~= r@.txid);
                }
                let ghost tdv = t.deep_view();
                out.push(t);
                proof {
                    assert(out.deep_view() =~= prev.push(tdv));
                }
                assert(out.deep_view() =~= outstanding_missing(
                    rs.take(j + 1 as int),
                    current.deep_view(),
                ));
            } else {
                assert(out.deep_view() =~= outstanding_missing(
                    rs.take(j + 1 as int),
                    current.deep_view(),
                ));
            }
            j = j + 1;
        }
        proof {
            assert(rs.take(rs.len() as int) =~= rs);
        }
        out
    }

    /// Appends one mempool snapshot row.
    pub fn record_mempool_state(
        &mut self,
        mempool_size: u64,
        mempool_tx_count: u64,
        block_height: u64,
        block_hash: &Vec<u8>,
        now: u64,
    )
        ensures
            final(self)@ == snapshot_spec(
                old(self)@,
                mempool_size,
                mempool_tx_count,
                block_height,
                block_hash@,
                now,
            ),
            final(self).wf() == old(self).wf(),
    {
        self.snapshots.push(MempoolSnapshot {
            recorded_at: now,
            mempool_size: mempool_size,
            mempool_tx_count: mempool_tx_count,
            block_height: block_height,
            block_hash: copy_bytes(block_hash),
        });
        proof {
            assert(self@ =~= snapshot_spec(
                old(self)@,
                mempool_size,
                mempool_tx_count,
                block_height,
                block_hash@,
                now,
            ));
        }
    }
}

} // verus!
