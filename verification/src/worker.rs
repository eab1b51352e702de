//! Worker state machine.
//!
//! The decisions a worker takes for one task, as functions from store state
//! and observed facts (decoded transaction, confirmation status, fee) to the
//! next store state.  The caller runs the whole of `handle_raw_tx` under the
//! serialization lock, so the check-then-act sequence is atomic.

use vstd::prelude::*;

use crate::store::{
    coinbase_spec, has_key, insert_spec, mined_spec, outstanding_missing, pruned_spec, rbf_spec,
    tx_key, RecordV, Store, StoreV,
};
use crate::tx::{is_coinbase_tx, Tx, TxV};

verus! {

/// One unit of work for the worker pool.
#[derive(Debug, Clone)]
pub enum Task {
    RawTx(Vec<u8>),
    PruneCheck,
    MempoolState,
}

/// Mathematical view of a task.
pub enum TaskV {
    RawTx(Seq<u8>),
    PruneCheck,
    MempoolState,
}

impl View for Task {
    type V = TaskV;

    open spec fn view(&self) -> TaskV {
        match self {
            Task::RawTx(b) => TaskV::RawTx(b@),
            Task::PruneCheck => TaskV::PruneCheck,
            Task::MempoolState => TaskV::MempoolState,
        }
    }
}

/// How one observed transaction is classified against the store.
#[derive(Clone, Copy, Debug, PartialEq, Eq, Structural)]
pub enum TxClass {
    Coinbase,
    New,
    Mined,
    Replaced,
}

/// The lifecycle decision for one observed transaction: coinbase transactions
/// go their own way; otherwise an unseen inputs-hash is a first observation,
/// a seen one is mined when confirmed and a fee-bump replacement when not.
pub open spec fn classify_spec(rs: Seq<RecordV>, t: TxV, confirmed: bool) -> TxClass {
    if is_coinbase_tx(t) {
        TxClass::Coinbase
    } else if !has_key(rs, tx_key(t)) {
        TxClass::New
    } else if confirmed {
        TxClass::Mined
    } else {
        TxClass::Replaced
    }
}

/// The store after one `RawTx` task: the store operation the classification
/// selects.  A first observation through the live stream carries no explicit
/// found-time, so the fresh record keeps the sentinel.
pub open spec fn handle_raw_tx_spec(
    s: StoreV,
    t: TxV,
    confirmed: bool,
    fee_total: u64,
    size: u64,
    count: u64,
    now: u64,
) -> StoreV {
    match classify_spec(s.records, t, confirmed) {
        TxClass::Coinbase => coinbase_spec(s, t, now, size, count),
        TxClass::New => insert_spec(s, t, 0, size, count),
        TxClass::Mined => mined_spec(s, t, now),
        TxClass::Replaced => rbf_spec(s, t, fee_total, now),
    }
}

/// The store after one `PruneCheck` task: every outstanding record absent
/// from the current mempool is marked pruned.
pub open spec fn prune_sweep_spec(s: StoreV, current: Seq<Seq<u8>>, now: u64) -> StoreV {
    pruned_spec(s, outstanding_missing(s.records, current), now)
}

/// Classifies one observed transaction against the store, without mutating.
pub fn classify(store: &Store, tx: &Tx, confirmed: bool) -> (c: TxClass)
    ensures
        c == classify_spec(store@.records, tx@, confirmed),
{
    if tx.is_coinbase() {
        TxClass::Coinbase
    } else if !store.tx_exists(tx) {
        TxClass::New
    } else if confirmed {
        TxClass::Mined
    } else {
        TxClass::Replaced
    }
}

/// Applies one `RawTx` task: classifies the transaction and performs the
/// store operation the class calls for.  The classification checks existence
/// first, so the mined and replaced paths cannot fail with `NotFound`.
pub fn handle_raw_tx(
    store: &mut Store,
    tx: &Tx,
    confirmed: bool,
    fee_total: u64,
    mempool_size: u64,
    mempool_tx_count: u64,
    now: u64,
) -> (c: TxClass)
    requires
        old(store).wf(),
    ensures
        final(store).wf(),
        c == classify_spec(old(store)@.records, tx@, confirmed),
        final(store)@ == handle_raw_tx_spec(
            old(store)@,
            tx@,
            confirmed,
            fee_total,
            mempool_size,
            mempool_tx_count,
            now,
        ),
{
    if tx.is_coinbase() {
        store.record_coinbase(tx, mempool_size, mempool_tx_count, now);
        TxClass::Coinbase
    } else if !store.tx_exists(tx) {
        store.insert_or_update(tx, None, mempool_size, mempool_tx_count);
        TxClass::New
    } else if confirmed {
        match store.record_mined(tx, now) {
            Ok(_) => TxClass::Mined,
            Err(_) => {
                proof {
                    assert(false);
                }
                TxClass::Mined
            },
        }
    } else {
        match store.record_rbf(tx, fee_total, now) {
            Ok(_) => TxClass::Replaced,
            Err(_) => {
                proof {
                    assert(false);
                }
                TxClass::Replaced
            },
        }
    }
}

/// Applies one `PruneCheck` task against the current mempool's id list:
/// computes the outstanding records absent from it and marks them pruned.
pub fn prune_sweep(store: &mut Store, current: &Vec<Vec<u8>>, now: u64)
    requires
        old(store).wf(),
    ensures
        final(store).wf(),
        final(store)@ == prune_sweep_spec(old(store)@, current.deep_view(), now),
{
    let gone = store.outstanding_txids_not_in(current);
    store.record_pruned_batch(&gone, now);
}

/// One mempool transaction handed to the backfill, with its observed
/// pool-entry time.
pub struct MempoolEntry {
    pub tx: Tx,
    pub entered_at: u64,
}

/// Mathematical view of a backfill entry.
pub struct MempoolEntryV {
    pub tx: TxV,
    pub entered_at: u64,
}

impl View for MempoolEntry {
    type V = MempoolEntryV;

    open spec fn view(&self) -> MempoolEntryV {
        MempoolEntryV { tx: self.tx@, entered_at: self.entered_at }
    }
}

/// The store after the startup backfill: each mempool entry inserted in
/// order, with its true historical found-time.
pub open spec fn backfill_spec(
    s: StoreV,
    entries: Seq<MempoolEntryV>,
    size: u64,
    count: u64,
) -> StoreV
    decreases entries.len(),
{
    if entries.len() == 0 {
        s
    } else {
        backfill_spec(
            insert_spec(s, entries[0].tx, entries[0].entered_at, size, count),
            entries.drop_first(),
            size,
            count,
        )
    }
}

/// Primes the store with the node's current mempool before the workers
/// start: inserts every entry with its observed pool-entry time.
pub fn backfill(
    store: &mut Store,
    entries: &Vec<MempoolEntry>,
    mempool_size: u64,
    mempool_tx_count: u64,
)
    requires
        old(store).wf(),
    ensures
        final(store).wf(),
        final(store)@ == backfill_spec(
            old(store)@,
            entries@.map_values(|e: MempoolEntry| e@),
            mempool_size,
            mempool_tx_count,
        ),
{
    let ghost evs = entries@.map_values(|e: MempoolEntry| e@);
    proof {
        assert(evs.skip(0) =~= evs);
    }
    let mut j: usize = 0;
    while j < entries.len()
        invariant
            j <= entries.len(),
            evs == entries@.map_values(|e: MempoolEntry| e@),
            store.wf(),
            backfill_spec(old(store)@, evs, mempool_size, mempool_tx_count) == backfill_spec(
                store@,
                evs.skip(j as int),
                mempool_size,
                mempool_tx_count,
            ),
        decreases entries.len() - j,
    {
        let e = &entries[j];
        let ghost pre = store@;
        store.insert_or_update(&e.tx, Some(e.entered_at), mempool_size, mempool_tx_count);
        proof {
            assert(evs.skip(j as int)[0] == evs[j as int]);
            assert(evs.skip(j as int).drop_first() =~= evs.skip(j + 1 as int));
            assert(store@ == insert_spec(
                pre,
                evs[j as int].tx,
                evs[j as int].entered_at,
                mempool_size,
                mempool_tx_count,
            ));
        }
        j = j + 1;
    }
    proof {
        assert(evs.skip(evs.len() as int) =~= Seq::<MempoolEntryV>::empty());
    }
}

} // verus!
