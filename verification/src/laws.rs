//! The general laws of the tracker, each proved over the store's
//! mathematical model.

use vstd::prelude::*;

use crate::store::{
    coinbase_spec, has_key, insert_records, insert_spec, mined_spec, outstanding_missing,
    pruned_spec, rbf_spec, tx_key, RecordV, ReplacementV, StoreV,
};
use crate::tx::{content_hash_hex, is_coinbase_tx, TxV};
use crate::worker::{classify_spec, handle_raw_tx_spec, prune_sweep_spec, TxClass};

verus! {

/// Two transactions with identical ordered input lists have the same content
/// hash — and so the same store key — even when their ids differ.
pub proof fn lemma_content_hash_same_inputs(t1: TxV, t2: TxV)
    requires
        t1.inputs == t2.inputs,
    ensures
        content_hash_hex(t1.inputs) == content_hash_hex(t2.inputs),
        tx_key(t1) == tx_key(t2),
{
}

/// After `insert_or_update` the transaction's key is present; and a key is
/// present after the insert exactly when it was present before or is the
/// inserted transaction's own key — no other key ever appears.
pub proof fn lemma_insert_then_exists(
    s: StoreV,
    t: TxV,
    found_at: u64,
    size: u64,
    count: u64,
    h: Seq<u8>,
)
    ensures
        has_key(insert_spec(s, t, found_at, size, count).records, tx_key(t)),
        has_key(insert_spec(s, t, found_at, size, count).records, h) <==> has_key(s.records, h)
            || h == tx_key(t),
{
    let rs = s.records;
    let rs2 = insert_records(rs, t, found_at, size, count);
    if has_key(rs, tx_key(t)) {
        let i = choose|i: int| 0 <= i < rs.len() && rs[i].inputs_hash == tx_key(t);
        assert(rs2[i].inputs_hash == tx_key(t));
    } else {
        assert(rs2[rs.len() as int].inputs_hash == tx_key(t));
    }
    assert(has_key(rs2, h) ==> has_key(rs, h) || h == tx_key(t)) by {
        if has_key(rs2, h) {
            let i = choose|i: int| 0 <= i < rs2.len() && rs2[i].inputs_hash == h;
            if i < rs.len() {
                if rs[i].inputs_hash == tx_key(t) {
                } else {
                    assert(rs2[i].inputs_hash == rs[i].inputs_hash);
                }
            }
        }
    }
    assert(has_key(rs, h) ==> has_key(rs2, h)) by {
        if has_key(rs, h) {
            let i = choose|i: int| 0 <= i < rs.len() && rs[i].inputs_hash == h;
            assert(rs2[i].inputs_hash == rs[i].inputs_hash);
        }
    }
}

/// An empty store holds no key at all: a never-inserted transaction's
/// existence check is false.
pub proof fn lemma_empty_store_has_no_keys(h: Seq<u8>)
    ensures
        !has_key(Seq::<RecordV>::empty(), h),
{
}

/// Only an observation of a transaction can create a key: the mined,
/// replaced and pruned operations leave the set of present keys exactly as
/// it was.
pub proof fn lemma_only_inserts_create_keys(
    s: StoreV,
    t: TxV,
    gone: Seq<Seq<u8>>,
    fee_total: u64,
    now: u64,
    h: Seq<u8>,
)
    ensures
        has_key(mined_spec(s, t, now).records, h) == has_key(s.records, h),
        has_key(rbf_spec(s, t, fee_total, now).records, h) == has_key(s.records, h),
        has_key(pruned_spec(s, gone, now).records, h) == has_key(s.records, h),
{
    let rs = s.records;
    assert(has_key(mined_spec(s, t, now).records, h) == has_key(rs, h)) by {
        let rs2 = mined_spec(s, t, now).records;
        if has_key(rs2, h) {
            let i = choose|i: int| 0 <= i < rs2.len() && rs2[i].inputs_hash == h;
            assert(rs[i].inputs_hash == h);
        }
        if has_key(rs, h) {
            let i = choose|i: int| 0 <= i < rs.len() && rs[i].inputs_hash == h;
            assert(rs2[i].inputs_hash == h);
        }
    }
    assert(has_key(rbf_spec(s, t, fee_total, now).records, h) == has_key(rs, h)) by {
        let rs2 = rbf_spec(s, t, fee_total, now).records;
        if has_key(rs2, h) {
            let i = choose|i: int| 0 <= i < rs2.len() && rs2[i].inputs_hash == h;
            assert(rs[i].inputs_hash == h);
        }
        if has_key(rs, h) {
            let i = choose|i: int| 0 <= i < rs.len() && rs[i].inputs_hash == h;
            assert(rs2[i].inputs_hash == h);
        }
    }
    assert(has_key(pruned_spec(s, gone, now).records, h) == has_key(rs, h)) by {
        let rs2 = pruned_spec(s, gone, now).records;
        if has_key(rs2, h) {
            let i = choose|i: int| 0 <= i < rs2.len() && rs2[i].inputs_hash == h;
            assert(rs[i].inputs_hash == h);
        }
        if has_key(rs, h) {
            let i = choose|i: int| 0 <= i < rs.len() && rs[i].inputs_hash == h;
            assert(rs2[i].inputs_hash == h);
        }
    }
}

/// A second observation of an already-inserted transaction does not create
/// a second record: it finds the key and routes to the mined or replaced
/// handling, and the record count stays as it was.
pub proof fn lemma_second_observation_no_duplicate(
    s: StoreV,
    t: TxV,
    confirmed: bool,
    fee_total: u64,
    found_at: u64,
    size: u64,
    count: u64,
    now: u64,
)
    requires
        !is_coinbase_tx(t),
        !has_key(s.records, tx_key(t)),
    ensures
        ({
            let s1 = insert_spec(s, t, found_at, size, count);
            let c = classify_spec(s1.records, t, confirmed);
            &&& c == if confirmed {
                TxClass::Mined
            } else {
                TxClass::Replaced
            }
            &&& handle_raw_tx_spec(s1, t, confirmed, fee_total, size, count, now).records.len()
                == s1.records.len()
        }),
{
    lemma_insert_then_exists(s, t, found_at, size, count, tx_key(t));
}

/// Round trip: a record inserted with a given found-time, then marked mined,
/// reads back with the found-time unchanged, the mined-time as given, and
/// the pruned-time still the sentinel.
pub proof fn lemma_mined_round_trip(
    s: StoreV,
    t: TxV,
    found_at: u64,
    size: u64,
    count: u64,
    now: u64,
)
    requires
        !has_key(s.records, tx_key(t)),
    ensures
        ({
            let s2 = mined_spec(insert_spec(s, t, found_at, size, count), t, now);
            &&& s2.records.len() == s.records.len() + 1
            &&& exists|i: int|
                0 <= i < s2.records.len() && s2.records[i].inputs_hash == tx_key(t)
                    && s2.records[i].found_at == found_at && s2.records[i].mined_at == now
                    && s2.records[i].pruned_at == 0
        }),
{
    let rs1 = insert_spec(s, t, found_at, size, count).records;
    let n = s.records.len() as int;
    assert(rs1[n].inputs_hash == tx_key(t));
    assert(rs1[n].found_at == found_at);
    assert(rs1[n].pruned_at == 0);
    let s2 = mined_spec(insert_spec(s, t, found_at, size, count), t, now);
    assert(s2.records[n].inputs_hash == tx_key(t));
    assert(s2.records[n].found_at == found_at);
    assert(s2.records[n].mined_at == now);
    assert(s2.records[n].pruned_at == 0);
}

/// Membership in the prune batch: an id is in it exactly when some
/// outstanding record carries that id and the id is absent from the current
/// mempool list.
pub proof fn lemma_outstanding_missing_membership(
    rs: Seq<RecordV>,
    current: Seq<Seq<u8>>,
    x: Seq<u8>,
)
    ensures
        outstanding_missing(rs, current).contains(x) <==> exists|k: int|
            0 <= k < rs.len() && rs[k].mined_at == 0 && rs[k].pruned_at == 0 && !current.contains(
                rs[k].txid,
            ) && rs[k].txid == x,
    decreases rs.len(),
{
    if rs.len() == 0 {
    } else {
        let s0 = rs.drop_last();
        let last = rs.last();
        lemma_outstanding_missing_membership(s0, current, x);
        let rest = outstanding_missing(s0, current);
        assert(forall|k: int| 0 <= k < s0.len() ==> s0[k] == rs[k]);
        if last.mined_at == 0 && last.pruned_at == 0 && !current.contains(last.txid) {
            assert(outstanding_missing(rs, current) == rest.push(last.txid));
            assert(rest.push(last.txid).contains(x) <==> (rest.contains(x) || last.txid == x)) by {
                if rest.push(last.txid).contains(x) {
                    let i = choose|i: int|
                        0 <= i < rest.push(last.txid).len() && rest.push(last.txid)[i] == x;
                    if i < rest.len() {
                        assert(rest[i] == x);
                    }
                }
                if rest.contains(x) {
                    let i = choose|i: int| 0 <= i < rest.len() && rest[i] == x;
                    assert(rest.push(last.txid)[i] == x);
                }
                if last.txid == x {
                    assert(rest.push(last.txid)[rest.len() as int] == x);
                }
            }
            if rest.contains(x) || last.txid == x {
                if last.txid == x {
                    assert(rs[rs.len() - 1].txid == x);
                } else {
                    let k = choose|k: int|
                        0 <= k < s0.len() && s0[k].mined_at == 0 && s0[k].pruned_at == 0
                            && !current.contains(s0[k].txid) && s0[k].txid == x;
                    assert(rs[k].txid == x);
                }
            }
            if exists|k: int|
                0 <= k < rs.len() && rs[k].mined_at == 0 && rs[k].pruned_at == 0
                    && !current.contains(rs[k].txid) && rs[k].txid == x {
                let k = choose|k: int|
                    0 <= k < rs.len() && rs[k].mined_at == 0 && rs[k].pruned_at == 0
                        && !current.contains(rs[k].txid) && rs[k].txid == x;
                if k < rs.len() - 1 {
                    assert(s0[k] == rs[k]);
                }
            }
        } else {
            assert(outstanding_missing(rs, current) == rest);
            if exists|k: int|
                0 <= k < rs.len() && rs[k].mined_at == 0 && rs[k].pruned_at == 0
                    && !current.contains(rs[k].txid) && rs[k].txid == x {
                let k = choose|k: int|
                    0 <= k < rs.len() && rs[k].mined_at == 0 && rs[k].pruned_at == 0
                        && !current.contains(rs[k].txid) && rs[k].txid == x;
                assert(k < rs.len() - 1);
                assert(s0[k] == rs[k]);
            }
        }
    }
}

/// Pruning correctness, for records with pairwise distinct ids: a prune
/// sweep against the current mempool marks exactly the outstanding records
/// whose id is absent from it, and touches nothing else — in particular a
/// record already mined is never re-marked pruned.
pub proof fn lemma_prune_sweep_exact(s: StoreV, current: Seq<Seq<u8>>, now: u64)
    requires
        forall|i: int, j: int| 0 <= i < j < s.records.len() ==> s.records[i].txid
            != s.records[j].txid,
    ensures
        ({
            let s2 = prune_sweep_spec(s, current, now);
            &&& s2.records.len() == s.records.len()
            &&& forall|i: int|
                0 <= i < s.records.len() ==> s2.records[i] == (if s.records[i].mined_at == 0
                    && s.records[i].pruned_at == 0 && !current.contains(s.records[i].txid) {
                    RecordV { pruned_at: now, ..s.records[i] }
                } else {
                    s.records[i]
                })
        }),
{
    let rs = s.records;
    let gone = outstanding_missing(rs, current);
    let s2 = prune_sweep_spec(s, current, now);
    assert forall|i: int| 0 <= i < rs.len() implies s2.records[i] == (if rs[i].mined_at == 0
        && rs[i].pruned_at == 0 && !current.contains(rs[i].txid) {
        RecordV { pruned_at: now, ..rs[i] }
    } else {
        rs[i]
    }) by {
        lemma_outstanding_missing_membership(rs, current, rs[i].txid);
        if rs[i].mined_at == 0 && rs[i].pruned_at == 0 && !current.contains(rs[i].txid) {
            assert(gone.contains(rs[i].txid));
        } else {
            if gone.contains(rs[i].txid) {
                let k = choose|k: int|
                    0 <= k < rs.len() && rs[k].mined_at == 0 && rs[k].pruned_at == 0
                        && !current.contains(rs[k].txid) && rs[k].txid == rs[i].txid;
                assert(k == i);
                assert(false);
            }
        }
    }
}

/// RBF sequencing: inserting a base transaction and then recording a
/// replacement with the same inputs and a new id appends exactly one
/// replacement event for the shared key, and every record carrying the key
/// then reads the replacement's id.
pub proof fn lemma_rbf_sequencing(
    s: StoreV,
    x: TxV,
    xp: TxV,
    found_at: u64,
    size: u64,
    count: u64,
    fee_total: u64,
    now: u64,
)
    requires
        !has_key(s.records, tx_key(x)),
        xp.inputs == x.inputs,
    ensures
        ({
            let s1 = insert_spec(s, x, found_at, size, count);
            let s2 = rbf_spec(s1, xp, fee_total, now);
            &&& s2.replacements == s1.replacements.push(
                ReplacementV { inputs_hash: tx_key(x), created_at: now, fee_total: fee_total },
            )
            &&& s2.records.len() == s1.records.len()
            &&& exists|i: int|
                0 <= i < s2.records.len() && s2.records[i].inputs_hash == tx_key(x)
                    && s2.records[i].txid == xp.txid
            &&& forall|i: int|
                0 <= i < s2.records.len() && s2.records[i].inputs_hash == tx_key(x)
                    ==> s2.records[i].txid == xp.txid
        }),
{
    lemma_content_hash_same_inputs(x, xp);
    let s1 = insert_spec(s, x, found_at, size, count);
    let s2 = rbf_spec(s1, xp, fee_total, now);
    let n = s.records.len() as int;
    assert(s1.records[n].inputs_hash == tx_key(x));
    assert(s2.records[n].inputs_hash == tx_key(x));
    assert(s2.records[n].txid == xp.txid);
}

/// Terminal states are never reset: handling a non-coinbase transaction at
/// a real (non-sentinel) time never returns a record's mined or pruned
/// timestamp to the sentinel once it was set.
pub proof fn lemma_terminal_states_monotonic(
    s: StoreV,
    t: TxV,
    confirmed: bool,
    fee_total: u64,
    size: u64,
    count: u64,
    now: u64,
)
    requires
        !is_coinbase_tx(t),
        now != 0,
    ensures
        ({
            let s2 = handle_raw_tx_spec(s, t, confirmed, fee_total, size, count, now);
            forall|i: int|
                0 <= i < s.records.len() ==> (s.records[i].mined_at != 0 ==> s2.records[i].mined_at
                    != 0) && (s.records[i].pruned_at != 0 ==> s2.records[i].pruned_at != 0)
        }),
{
    let s2 = handle_raw_tx_spec(s, t, confirmed, fee_total, size, count, now);
    if !has_key(s.records, tx_key(t)) {
        assert forall|i: int| 0 <= i < s.records.len() implies s2.records[i].mined_at
            == s.records[i].mined_at && s2.records[i].pruned_at == s.records[i].pruned_at by {
            assert(s.records[i].inputs_hash != tx_key(t));
        }
    }
}

/// A prune sweep leaves every mined timestamp exactly as it was, and at a
/// real (non-sentinel) time never returns a pruned timestamp to the
/// sentinel.
pub proof fn lemma_prune_sweep_monotonic(s: StoreV, current: Seq<Seq<u8>>, now: u64)
    requires
        now != 0,
    ensures
        ({
            let s2 = prune_sweep_spec(s, current, now);
            forall|i: int|
                0 <= i < s.records.len() ==> s2.records[i].mined_at == s.records[i].mined_at && (
                s.records[i].pruned_at != 0 ==> s2.records[i].pruned_at != 0)
        }),
{
}

/// Coinbase transactions never go through the inputs-hash path: whatever
/// the store holds, classification routes them to the coinbase handling,
/// which keys the record by the transaction's own id and marks it mined at
/// insertion.
pub proof fn lemma_coinbase_path(
    s: StoreV,
    t: TxV,
    confirmed: bool,
    fee_total: u64,
    size: u64,
    count: u64,
    now: u64,
)
    requires
        is_coinbase_tx(t),
    ensures
        classify_spec(s.records, t, confirmed) == TxClass::Coinbase,
        handle_raw_tx_spec(s, t, confirmed, fee_total, size, count, now) == coinbase_spec(
            s,
            t,
            now,
            size,
            count,
        ),
        ({
            let s2 = coinbase_spec(s, t, now, size, count);
            exists|i: int|
                0 <= i < s2.records.len() && s2.records[i].inputs_hash == t.txid
                    && s2.records[i].txid == t.txid && s2.records[i].mined_at == now
                    && s2.records[i].pruned_at == 0
        }),
{
    let s2 = coinbase_spec(s, t, now, size, count);
    if has_key(s.records, t.txid) {
        let i = choose|i: int| 0 <= i < s.records.len() && s.records[i].inputs_hash == t.txid;
        assert(s2.records[i].inputs_hash == t.txid);
        assert(s2.records[i].mined_at == now);
    } else {
        let n = s.records.len() as int;
        assert(s2.records[n].inputs_hash == t.txid);
        assert(s2.records[n].mined_at == now);
    }
}

} // verus!
