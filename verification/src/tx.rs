//! Transaction model and content addresser.
//!
//! A transaction is held as the plain values the tracker reads from it: its
//! id, its inputs (each the reference to a spent output plus the witness
//! items), and the serialized bytes it was decoded from.  The content address
//! of a transaction is the SHA-256 digest of its spent-output references in
//! order, so it is stable across fee-bump replacements that re-spend the same
//! outputs.

use vstd::prelude::*;

verus! {

/// Mathematical view of one transaction input.
#[verifier::ext_equal]
pub struct TxInputV {
    pub prev_txid: Seq<u8>,
    pub prev_vout: u32,
    pub witness: Seq<Seq<u8>>,
}

/// One transaction input: the spent outpoint and the witness items.
pub struct TxInput {
    pub prev_txid: Vec<u8>,
    pub prev_vout: u32,
    pub witness: Vec<Vec<u8>>,
}

impl View for TxInput {
    type V = TxInputV;

    open spec fn view(&self) -> TxInputV {
        TxInputV {
            prev_txid: self.prev_txid@,
            prev_vout: self.prev_vout,
            witness: self.witness.deep_view(),
        }
    }
}

/// Mathematical view of a transaction.
#[verifier::ext_equal]
pub struct TxV {
    pub txid: Seq<u8>,
    pub inputs: Seq<TxInputV>,
    pub raw: Seq<u8>,
}

/// A transaction as the tracker sees it: its 32-byte id, its inputs, and the
/// serialized bytes it was decoded from.
pub struct Tx {
    pub txid: Vec<u8>,
    pub inputs: Vec<TxInput>,
    pub raw: Vec<u8>,
}

impl View for Tx {
    type V = TxV;

    open spec fn view(&self) -> TxV {
        TxV {
            txid: self.txid@,
            inputs: self.inputs@.map_values(|i: TxInput| i@),
            raw: self.raw@,
        }
    }
}

/// The all-zero 32-byte id: the "previous output" of a coinbase input.
pub open spec fn null_txid() -> Seq<u8> {
    Seq::new(32, |i: int| 0u8)
}

/// A coinbase transaction has exactly one input, and that input spends the
/// null outpoint (all-zero id, maximal output index).
pub open spec fn is_coinbase_tx(t: TxV) -> bool {
    &&& t.inputs.len() == 1
    &&& t.inputs[0].prev_txid == null_txid()
    &&& t.inputs[0].prev_vout == 0xffff_ffffu32
}

/// The four little-endian bytes of a 32-bit output index.
pub open spec fn le_bytes_u32(v: u32) -> Seq<u8> {
    seq![
        (v % 256) as u8,
        ((v / 256) % 256) as u8,
        ((v / 65536) % 256) as u8,
        ((v / 16777216) % 256) as u8,
    ]
}

/// The byte string hashed for one input: the spent output's id followed by
/// its index in little-endian form.  The witness takes no part.
pub open spec fn outpoint_encoding(i: TxInputV) -> Seq<u8> {
    i.prev_txid + le_bytes_u32(i.prev_vout)
}

/// The concatenation of the outpoint encodings of a list of inputs, in order.
pub open spec fn inputs_encoding(s: Seq<TxInputV>) -> Seq<u8>
    decreases s.len(),
{
    if s.len() == 0 {
        Seq::empty()
    } else {
        inputs_encoding(s.drop_last()) + outpoint_encoding(s.last())
    }
}

pub uninterp spec fn sha256_of(data: Seq<u8>) -> Seq<u8>;

pub uninterp spec fn hex_of(data: Seq<u8>) -> Seq<char>;

pub uninterp spec fn is_tx_encoding(raw: Seq<u8>) -> bool;

pub uninterp spec fn txid_of(raw: Seq<u8>) -> Seq<u8>;

pub uninterp spec fn inputs_of(raw: Seq<u8>) -> Seq<TxInputV>;

pub uninterp spec fn stripped_of(raw: Seq<u8>) -> Seq<u8>;

/// The content address of a list of inputs: the digest of their concatenated
/// outpoint encodings.
pub open spec fn content_hash_bytes(inputs: Seq<TxInputV>) -> Seq<u8> {
    sha256_of(inputs_encoding(inputs))
}

/// The content address as lowercase hex, the display form.
pub open spec fn content_hash_hex(inputs: Seq<TxInputV>) -> Seq<char> {
    hex_of(content_hash_bytes(inputs))
}

/// What the store keeps for a transaction's bytes: the witness-stripped
/// re-encoding when the bytes parse, the bytes themselves otherwise.
pub open spec fn stored_bytes_of(raw: Seq<u8>) -> Seq<u8> {
    if is_tx_encoding(raw) {
        stripped_of(raw)
    } else {
        raw
    }
}

/// Relies on bitcoin_hashes::Sha256::hash: the 32-byte SHA-256 digest of the
/// data, a function of the data alone.
#[verifier::external_body]
fn sha256(data: &Vec<u8>) -> (r: Vec<u8>)
    ensures
        r@ == sha256_of(data@),
        r@.len() == 32,
{
    bitcoin_hashes::Sha256::hash(data.as_slice()).to_byte_array().to_vec()
}

/// Relies on hex::encode: lowercase hex, two digits for each byte, a function
/// of the data alone.
#[verifier::external_body]
fn hex_encode(data: &Vec<u8>) -> (r: String)
    ensures
        r@ == hex_of(data@),
        r@.len() == 2 * data@.len(),
{
    hex::encode(data.as_slice())
}

/// Relies on bitcoin::consensus::deserialize, which parses exactly the byte
/// strings that are a full consensus encoding of a transaction and consumes
/// them entirely, and on bitcoin::Transaction::compute_txid, the transaction's
/// 32-byte id.  Both are functions of the bytes alone.
#[verifier::external_body]
fn decode_tx_bytes(bytes: &Vec<u8>) -> (r: Option<Tx>)
    ensures
        r is Some <==> is_tx_encoding(bytes@),
        r matches Some(t) ==> ({
            &&& t.txid@ == txid_of(bytes@)
            &&& t.txid@.len() == 32
            &&& t.inputs@.map_values(|i: TxInput| i@) == inputs_of(bytes@)
            &&& t.raw@ == bytes@
        }),
{
    let tx: bitcoin::Transaction = bitcoin::consensus::deserialize(bytes.as_slice()).ok()?;
    let txid = bitcoin::hashes::Hash::to_byte_array(tx.compute_txid().to_raw_hash()).to_vec();
    let inputs = tx
        .input
        .iter()
        .map(|i| TxInput {
            prev_txid: bitcoin::hashes::Hash::to_byte_array(i.previous_output.txid.to_raw_hash())
                .to_vec(),
            prev_vout: i.previous_output.vout,
            witness: i.witness.iter().map(|w| w.to_vec()).collect(),
        })
        .collect();
    Some(Tx { txid, inputs, raw: bytes.clone() })
}

/// Relies on bitcoin::consensus::deserialize and serialize and on
/// bitcoin::Witness::clear: the same transaction re-encoded with every
/// input's witness emptied, a function of the bytes alone.
#[verifier::external_body]
fn strip_witness_bytes(raw: &Vec<u8>) -> (r: Option<Vec<u8>>)
    ensures
        r is Some <==> is_tx_encoding(raw@),
        r matches Some(b) ==> b@ == stripped_of(raw@),
{
    let mut tx: bitcoin::Transaction = match bitcoin::consensus::deserialize(raw.as_slice()) {
        Ok(t) => t,
        Err(_) => return None,
    };
    for i in tx.input.iter_mut() {
        i.witness.clear();
    }
    Some(bitcoin::consensus::serialize(&tx))
}

/// The stored form of serialized transaction bytes: witness-stripped when
/// they parse, unchanged otherwise.
pub fn stored_bytes(raw: &Vec<u8>) -> (r: Vec<u8>)
    ensures
        r@ == stored_bytes_of(raw@),
{
    match strip_witness_bytes(raw) {
        Some(b) => b,
        None => copy_bytes(raw),
    }
}

/// Byte-for-byte copy of a byte vector.
pub fn copy_bytes(v: &Vec<u8>) -> (r: Vec<u8>)
    ensures
        r@ == v@,
{
    let mut out: Vec<u8> = Vec::new();
    let mut i: usize = 0;
    while i < v.len()
        invariant
            i <= v.len(),
            out@ == v@.take(i as int),
        decreases v.len() - i,
    {
        out.push(v[i]);
        assert(out@ =~= v@.take(i + 1 as int));
        i = i + 1;
    }
    assert(out@ =~= v@);
    out
}

/// Whether two byte vectors hold the same bytes.
pub fn bytes_eq(a: &Vec<u8>, b: &Vec<u8>) -> (r: bool)
    ensures
        r == (a@ == b@),
{
    if a.len() != b.len() {
        return false;
    }
    let mut i: usize = 0;
    while i < a.len()
        invariant
            i <= a.len(),
            a@.len() == b@.len(),
            forall|k: int| 0 <= k < i ==> a@[k] == b@[k],
        decreases a.len() - i,
    {
        if a[i] != b[i] {
            return false;
        }
        i = i + 1;
    }
    proof {
        assert(a@ =~= b@);
    }
    true
}

impl Tx {
    /// Decodes serialized transaction bytes; `None` exactly when the bytes
    /// are not a full transaction encoding.
    pub fn decode(bytes: &Vec<u8>) -> (r: Option<Tx>)
        ensures
            r is Some <==> is_tx_encoding(bytes@),
            r matches Some(t) ==> ({
                &&& t.txid@ == txid_of(bytes@)
                &&& t.txid@.len() == 32
                &&& t@.inputs == inputs_of(bytes@)
                &&& t.raw@ == bytes@
            }),
    {
        decode_tx_bytes(bytes)
    }

    /// Whether this is a coinbase transaction: one input spending the null
    /// outpoint.
    pub fn is_coinbase(&self) -> (r: bool)
        ensures
            r == is_coinbase_tx(self@),
    {
        if self.inputs.len() != 1 {
            return false;
        }
        let inp = &self.inputs[0];
        if inp.prev_vout != 0xffff_ffffu32 {
            return false;
        }
        if inp.prev_txid.len() != 32 {
            assert(inp@.prev_txid != null_txid());
            return false;
        }
        let mut i: usize = 0;
        while i < inp.prev_txid.len()
            invariant
                i <= inp.prev_txid.len(),
                self.inputs@.len() == 1,
                inp@ == self@.inputs[0],
                inp.prev_txid@.len() == 32,
                forall|k: int| 0 <= k < i ==> inp.prev_txid@[k] == 0u8,
            decreases inp.prev_txid.len() - i,
        {
            if inp.prev_txid[i] != 0 {
                proof {
                    assert(null_txid()[i as int] == 0u8);
                    assert(inp@.prev_txid[i as int] != null_txid()[i as int]);
                    assert(inp@.prev_txid != null_txid());
                }
                return false;
            }
            i = i + 1;
        }
        proof {
            assert(inp@.prev_txid =~= null_txid());
        }
        true
    }
}

/// The content-address bytes of a list of inputs: SHA-256 over the
/// concatenated outpoint encodings.
pub fn inputs_hash_bytes(inputs: &Vec<TxInput>) -> (r: Vec<u8>)
    ensures
        r@ == content_hash_bytes(inputs@.map_values(|i: TxInput| i@)),
        r@.len() == 32,
{
    let ghost views = inputs@.map_values(|i: TxInput| i@);
    let mut buf: Vec<u8> = Vec::new();
    let mut idx: usize = 0;
    while idx < inputs.len()
        invariant
            idx <= inputs.len(),
            views == inputs@.map_values(|i: TxInput| i@),
            buf@ == inputs_encoding(views.take(idx as int)),
        decreases inputs.len() - idx,
    {
        let ghost buf0 = buf@;
        let inp = &inputs[idx];
        let mut k: usize = 0;
        while k < inp.prev_txid.len()
            invariant
                k <= inp.prev_txid.len(),
                buf@ == buf0 + inp.prev_txid@.take(k as int),
            decreases inp.prev_txid.len() - k,
        {
            buf.push(inp.prev_txid[k]);
            assert(buf@ =~= buf0 + inp.prev_txid@.take(k + 1 as int));
            k = k + 1;
        }
        assert(buf@ =~= buf0 + inp.prev_txid@);
        let v = inp.prev_vout;
        buf.push((v % 256) as u8);
        buf.push(((v / 256) % 256) as u8);
        buf.push(((v / 65536) % 256) as u8);
        buf.push(((v / 16777216) % 256) as u8);
        proof {
            assert(buf@ =~= buf0 + outpoint_encoding(views[idx as int]));
            assert(views.take(idx + 1 as int).drop_last() =~= views.take(idx as int));
            assert(views.take(idx + 1 as int).last() == views[idx as int]);
            assert(buf@ =~= inputs_encoding(views.take(idx + 1 as int)));
        }
        idx = idx + 1;
    }
    proof {
        assert(views.take(views.len() as int) =~= views);
    }
    sha256(&buf)
}

/// The content address of a list of inputs, as lowercase hex: the stable
/// identity of a transaction across fee-bump replacements.
pub fn get_inputs_hash(inputs: &Vec<TxInput>) -> (r: String)
    ensures
        r@ == content_hash_hex(inputs@.map_values(|i: TxInput| i@)),
{
    let bytes = inputs_hash_bytes(inputs);
    hex_encode(&bytes)
}

/// The lowercase hex form of a transaction id.
pub fn get_txid_hex(txid: &Vec<u8>) -> (r: String)
    ensures
        r@ == hex_of(txid@),
{
    hex_encode(txid)
}

/// Clears every input's witness and replaces the serialized bytes with their
/// stored (witness-stripped) form; the id and the outpoints are unchanged,
/// so the content address is too.
pub fn prune_large_witnesses(tx: &mut Tx)
    ensures
        final(tx).txid@ == old(tx).txid@,
        final(tx)@.inputs.len() == old(tx)@.inputs.len(),
        forall|i: int| 0 <= i < old(tx)@.inputs.len() ==> {
            &&& final(tx)@.inputs[i].prev_txid == old(tx)@.inputs[i].prev_txid
            &&& final(tx)@.inputs[i].prev_vout == old(tx)@.inputs[i].prev_vout
            &&& final(tx)@.inputs[i].witness == Seq::<Seq<u8>>::empty()
        },
        final(tx).raw@ == stored_bytes_of(old(tx).raw@),
{
    let mut i: usize = 0;
    while i < tx.inputs.len()
        invariant
            i <= tx.inputs.len(),
            tx.txid@ == old(tx).txid@,
            tx.raw@ == old(tx).raw@,
            tx.inputs@.len() == old(tx).inputs@.len(),
            forall|k: int| 0 <= k < tx.inputs@.len() ==> {
                &&& tx.inputs@[k]@.prev_txid == old(tx)@.inputs[k].prev_txid
                &&& tx.inputs@[k]@.prev_vout == old(tx)@.inputs[k].prev_vout
            },
            forall|k: int| 0 <= k < i ==> tx.inputs@[k]@.witness == Seq::<Seq<u8>>::empty(),
        decreases tx.inputs.len() - i,
    {
        let mut w: Vec<Vec<u8>> = Vec::new();
        assert(w.deep_view() =~= Seq::<Seq<u8>>::empty());
        let mut inp = tx.inputs.remove(i);
        inp.witness = w;
        tx.inputs.insert(i, inp);
        i = i + 1;
    }
    let stored = stored_bytes(&tx.raw);
    tx.raw = stored;
}

} // verus!
