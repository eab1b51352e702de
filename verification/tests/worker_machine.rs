//! Tests of the worker state machine and the task queue.

use mempool_tracker::queue::{TaskQueue, DEFAULT_QUEUE_CAPACITY};
use mempool_tracker::store::Store;
use mempool_tracker::tx::{inputs_hash_bytes, Tx, TxInput};
use mempool_tracker::worker::{
    backfill, classify, handle_raw_tx, prune_sweep, MempoolEntry, Task, TxClass,
};

fn input(prev_txid: Vec<u8>, prev_vout: u32) -> TxInput {
    TxInput { prev_txid, prev_vout, witness: vec![] }
}

fn tx(txid_byte: u8, spends: u8) -> Tx {
    Tx {
        txid: vec![txid_byte; 32],
        inputs: vec![input(vec![spends; 32], 0)],
        raw: vec![txid_byte, spends],
    }
}

fn coinbase_tx() -> Tx {
    Tx {
        txid: vec![8u8; 32],
        inputs: vec![input(vec![0u8; 32], u32::MAX)],
        raw: vec![1, 2, 3],
    }
}

#[test]
fn classify_routes_each_case() {
    let mut store = Store::new();
    let a = tx(1, 100);
    assert_eq!(classify(&store, &a, false), TxClass::New);
    assert_eq!(classify(&store, &a, true), TxClass::New);
    store.insert_or_update(&a, None, 0, 0);
    assert_eq!(classify(&store, &a, true), TxClass::Mined);
    assert_eq!(classify(&store, &a, false), TxClass::Replaced);
    assert_eq!(classify(&store, &coinbase_tx(), false), TxClass::Coinbase);
    assert_eq!(classify(&store, &coinbase_tx(), true), TxClass::Coinbase);
}

#[test]
fn handle_raw_tx_inserts_then_routes_to_mined() {
    let mut store = Store::new();
    let a = tx(1, 100);
    let c1 = handle_raw_tx(&mut store, &a, false, 0, 40, 2, 1000);
    assert_eq!(c1, TxClass::New);
    assert_eq!(store.records.len(), 1);
    // A live-path insert carries no explicit found-time.
    let rec = store.lookup(&inputs_hash_bytes(&a.inputs)).unwrap();
    assert_eq!(rec.found_at, 0);

    let c2 = handle_raw_tx(&mut store, &a, true, 0, 40, 2, 2000);
    assert_eq!(c2, TxClass::Mined);
    assert_eq!(store.records.len(), 1);
    let rec = store.lookup(&inputs_hash_bytes(&a.inputs)).unwrap();
    assert_eq!(rec.mined_at, 2000);
}

#[test]
fn handle_raw_tx_routes_replacement_with_fee() {
    let mut store = Store::new();
    let x = tx(1, 100);
    handle_raw_tx(&mut store, &x, false, 0, 0, 0, 1000);
    let x_prime = Tx { txid: vec![2u8; 32], inputs: vec![input(vec![100u8; 32], 0)], raw: vec![] };
    let c = handle_raw_tx(&mut store, &x_prime, false, 912, 0, 0, 2000);
    assert_eq!(c, TxClass::Replaced);
    assert_eq!(store.records.len(), 1);
    assert_eq!(store.replacements.len(), 1);
    assert_eq!(store.replacements[0].fee_total, 912);
    let rec = store.lookup(&inputs_hash_bytes(&x.inputs)).unwrap();
    assert_eq!(rec.txid, vec![2u8; 32]);
}

#[test]
fn handle_raw_tx_coinbase_never_uses_inputs_hash() {
    let mut store = Store::new();
    let cb = coinbase_tx();
    let c = handle_raw_tx(&mut store, &cb, false, 0, 40, 2, 1000);
    assert_eq!(c, TxClass::Coinbase);
    assert!(store.lookup(&cb.txid).is_some());
    assert!(store.lookup(&inputs_hash_bytes(&cb.inputs)).is_none());
}

#[test]
fn backfill_then_prune_scenario() {
    // One unconfirmed transaction sat in the mempool, found ten minutes ago.
    let now: u64 = 1700000600;
    let found = now - 600;
    let mut store = Store::new();
    let a = tx(1, 100);
    let entries = vec![MempoolEntry { tx: a, entered_at: found }];
    backfill(&mut store, &entries, 4000, 1);

    assert_eq!(store.records.len(), 1);
    let key = inputs_hash_bytes(&entries[0].tx.inputs);
    let rec = store.lookup(&key).unwrap();
    assert_eq!(rec.found_at, found);
    assert_eq!(rec.mined_at, 0);

    // A later prune check: the node's mempool no longer holds it.
    let current: Vec<Vec<u8>> = vec![];
    prune_sweep(&mut store, &current, now);
    let rec = store.lookup(&key).unwrap();
    assert_ne!(rec.pruned_at, 0);
    assert_eq!(rec.pruned_at, now);
    assert_eq!(rec.found_at, found);
    assert_eq!(rec.mined_at, 0);
}

#[test]
fn prune_sweep_leaves_pooled_records_alone() {
    let mut store = Store::new();
    let a = tx(1, 100);
    let b = tx(2, 101);
    store.insert_or_update(&a, Some(10), 0, 0);
    store.insert_or_update(&b, Some(20), 0, 0);
    let current = vec![a.txid.clone()];
    prune_sweep(&mut store, &current, 999);
    assert_eq!(store.lookup(&inputs_hash_bytes(&a.inputs)).unwrap().pruned_at, 0);
    assert_eq!(store.lookup(&inputs_hash_bytes(&b.inputs)).unwrap().pruned_at, 999);
}

#[test]
fn queue_is_fifo() {
    let mut q = TaskQueue::new(DEFAULT_QUEUE_CAPACITY);
    assert_eq!(q.capacity(), 10000);
    assert!(q.push(Task::RawTx(vec![1, 2])).is_ok());
    assert!(q.push(Task::PruneCheck).is_ok());
    assert!(q.push(Task::MempoolState).is_ok());
    assert_eq!(q.len(), 3);
    match q.pop() {
        Some(Task::RawTx(b)) => assert_eq!(b, vec![1, 2]),
        other => panic!("expected the raw-transaction task first, got {:?}", other),
    }
    assert!(matches!(q.pop(), Some(Task::PruneCheck)));
    assert!(matches!(q.pop(), Some(Task::MempoolState)));
    assert!(q.pop().is_none());
}

#[test]
fn queue_refuses_push_when_full() {
    let mut q = TaskQueue::new(2);
    assert!(q.push(Task::PruneCheck).is_ok());
    assert!(q.push(Task::MempoolState).is_ok());
    // The refused task comes back to the producer, nothing is dropped.
    match q.push(Task::RawTx(vec![7])) {
        Err(Task::RawTx(b)) => assert_eq!(b, vec![7]),
        other => panic!("expected the task back, got {:?}", other),
    }
    assert_eq!(q.len(), 2);
    // After a pop there is room again.
    assert!(q.pop().is_some());
    assert!(q.push(Task::RawTx(vec![7])).is_ok());
}

#[test]
fn backfill_inserts_every_entry_in_order() {
    let mut store = Store::new();
    let entries = vec![
        MempoolEntry { tx: tx(1, 100), entered_at: 11 },
        MempoolEntry { tx: tx(2, 101), entered_at: 22 },
        MempoolEntry { tx: tx(3, 102), entered_at: 33 },
    ];
    backfill(&mut store, &entries, 500, 3);
    assert_eq!(store.records.len(), 3);
    assert_eq!(store.records[0].found_at, 11);
    assert_eq!(store.records[1].found_at, 22);
    assert_eq!(store.records[2].found_at, 33);
    assert_eq!(store.records[0].mempool_size, 500);
    assert_eq!(store.records[0].mempool_tx_count, 3);
}

#[test]
fn zero_capacity_queue_refuses_everything() {
    let mut q = TaskQueue::new(0);
    assert!(q.push(Task::PruneCheck).is_err());
    assert!(q.pop().is_none());
}
