//! Tests of the transaction model and the content addresser.

use mempool_tracker::tx::{
    bytes_eq, copy_bytes, get_inputs_hash, get_txid_hex, inputs_hash_bytes, prune_large_witnesses,
    stored_bytes, Tx, TxInput,
};

fn input(prev_txid: Vec<u8>, prev_vout: u32) -> TxInput {
    TxInput { prev_txid, prev_vout, witness: vec![] }
}

#[test]
fn inputs_hash_matches_manual_sha256() {
    // The contract routes through SHA-256 of the concatenated outpoint
    // encodings; recompute that by hand and compare.
    let a = input(vec![7u8; 32], 1);
    let b = input(vec![9u8; 32], 0xdeadbeef);
    let inputs = vec![a, b];

    let mut manual: Vec<u8> = Vec::new();
    manual.extend_from_slice(&[7u8; 32]);
    manual.extend_from_slice(&1u32.to_le_bytes());
    manual.extend_from_slice(&[9u8; 32]);
    manual.extend_from_slice(&0xdeadbeefu32.to_le_bytes());
    let digest = bitcoin_hashes::Sha256::hash(&manual).to_byte_array().to_vec();

    assert_eq!(inputs_hash_bytes(&inputs), digest);
    assert_eq!(get_inputs_hash(&inputs), hex::encode(&digest));
}

#[test]
fn inputs_hash_ignores_witness_and_txid() {
    // Same ordered input list, different txid and witness: same content hash.
    let t1 = Tx {
        txid: vec![1u8; 32],
        inputs: vec![input(vec![7u8; 32], 0)],
        raw: vec![1, 2, 3],
    };
    let t2 = Tx {
        txid: vec![2u8; 32],
        inputs: vec![TxInput {
            prev_txid: vec![7u8; 32],
            prev_vout: 0,
            witness: vec![vec![0xab, 0xcd]],
        }],
        raw: vec![4, 5, 6],
    };
    assert_ne!(t1.txid, t2.txid);
    assert_eq!(get_inputs_hash(&t1.inputs), get_inputs_hash(&t2.inputs));
}

#[test]
fn inputs_hash_sensitive_to_order() {
    let i1 = || input(vec![7u8; 32], 0);
    let i2 = || input(vec![9u8; 32], 1);
    let forward = vec![i1(), i2()];
    let backward = vec![i2(), i1()];
    assert_ne!(get_inputs_hash(&forward), get_inputs_hash(&backward));
}

#[test]
fn inputs_hash_of_empty_list() {
    // SHA-256 of the empty string, in hex.
    let inputs: Vec<TxInput> = vec![];
    assert_eq!(
        get_inputs_hash(&inputs),
        "e3b0c44298fc1c149afbf4c8996fb92427ae41e4649b934ca495991b7852b855"
    );
}

#[test]
fn txid_hex_of_known_bytes() {
    let txid: Vec<u8> = (0u8..32u8).collect();
    assert_eq!(
        get_txid_hex(&txid),
        "000102030405060708090a0b0c0d0e0f101112131415161718191a1b1c1d1e1f"
    );
}

#[test]
fn is_coinbase_recognises_null_outpoint() {
    let coinbase = Tx {
        txid: vec![3u8; 32],
        inputs: vec![input(vec![0u8; 32], u32::MAX)],
        raw: vec![],
    };
    assert!(coinbase.is_coinbase());

    let ordinary = Tx {
        txid: vec![3u8; 32],
        inputs: vec![input(vec![7u8; 32], 0)],
        raw: vec![],
    };
    assert!(!ordinary.is_coinbase());

    let wrong_vout = Tx {
        txid: vec![3u8; 32],
        inputs: vec![input(vec![0u8; 32], 0)],
        raw: vec![],
    };
    assert!(!wrong_vout.is_coinbase());

    let two_inputs = Tx {
        txid: vec![3u8; 32],
        inputs: vec![input(vec![0u8; 32], u32::MAX), input(vec![0u8; 32], u32::MAX)],
        raw: vec![],
    };
    assert!(!two_inputs.is_coinbase());
}

fn sample_bitcoin_tx() -> bitcoin::Transaction {
    let txid = <bitcoin::Txid as bitcoin::hashes::Hash>::from_byte_array([5u8; 32]);
    bitcoin::Transaction {
        version: bitcoin::transaction::Version::TWO,
        lock_time: bitcoin::absolute::LockTime::ZERO,
        input: vec![bitcoin::TxIn {
            previous_output: bitcoin::OutPoint { txid, vout: 3 },
            script_sig: bitcoin::ScriptBuf::new(),
            sequence: bitcoin::Sequence::MAX,
            witness: bitcoin::Witness::from_slice(&[vec![1u8, 2, 3], vec![4u8]]),
        }],
        output: vec![bitcoin::TxOut {
            value: bitcoin::Amount::from_sat(1000),
            script_pubkey: bitcoin::ScriptBuf::new(),
        }],
    }
}

#[test]
fn decode_reads_txid_and_inputs_from_bytes() {
    let tx = sample_bitcoin_tx();
    let bytes = bitcoin::consensus::serialize(&tx);
    let decoded = Tx::decode(&bytes).expect("valid encoding");
    assert_eq!(decoded.raw, bytes);
    assert_eq!(
        decoded.txid,
        bitcoin::hashes::Hash::to_byte_array(tx.compute_txid().to_raw_hash()).to_vec()
    );
    assert_eq!(decoded.inputs.len(), 1);
    assert_eq!(decoded.inputs[0].prev_txid, vec![5u8; 32]);
    assert_eq!(decoded.inputs[0].prev_vout, 3);
    assert_eq!(decoded.inputs[0].witness, vec![vec![1u8, 2, 3], vec![4u8]]);
}

#[test]
fn decode_rejects_bad_bytes() {
    assert!(Tx::decode(&vec![0xff, 0x00, 0x01]).is_none());
    // A valid encoding with trailing garbage is not consumed entirely.
    let tx = sample_bitcoin_tx();
    let mut bytes = bitcoin::consensus::serialize(&tx);
    bytes.push(0);
    assert!(Tx::decode(&bytes).is_none());
}

#[test]
fn prune_large_witnesses_strips_and_reencodes() {
    let tx = sample_bitcoin_tx();
    let bytes = bitcoin::consensus::serialize(&tx);
    let mut decoded = Tx::decode(&bytes).expect("valid encoding");

    let mut stripped_tx = tx.clone();
    for i in stripped_tx.input.iter_mut() {
        i.witness.clear();
    }
    let stripped_bytes = bitcoin::consensus::serialize(&stripped_tx);

    prune_large_witnesses(&mut decoded);
    assert!(decoded.inputs[0].witness.is_empty());
    assert_eq!(decoded.raw, stripped_bytes);
    assert!(decoded.raw.len() < bytes.len());

    // Bytes that do not parse are kept as they are.
    assert_eq!(stored_bytes(&vec![1, 2, 3]), vec![1, 2, 3]);
}

#[test]
fn byte_helpers() {
    let v = vec![1u8, 2, 3];
    assert_eq!(copy_bytes(&v), v);
    assert!(bytes_eq(&v, &vec![1, 2, 3]));
    assert!(!bytes_eq(&v, &vec![1, 2]));
    assert!(!bytes_eq(&v, &vec![1, 2, 4]));
}
