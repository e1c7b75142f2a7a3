//! The digital-bearer-certificate data that validation reads: transactions,
//! fee outputs and signed spends.
use vstd::prelude::*;
use crate::bytes::{
    bytes_cmp, bytes_eq, bytes_lt, lemma_bytes_lt_irreflexive, lemma_bytes_lt_total,
    lemma_bytes_lt_transitive,
};
use sn_dbc::{
    DbcId, DbcTransaction as DbcTx, FeeOutput as DbcFee, Input as DbcInput, Output as DbcOutput,
    PublicKey,
};
use crate::names::{dbc_key_valid, is_dbc_key, signature_valid, verify_signature, DBC_ID_LEN, NAME_LEN, SIG_LEN};

verus! {

/// An input of a transaction: the DBC it spends and its amount in nanos.
#[derive(Clone, Debug)]
pub struct Input {
    pub dbc_id: Vec<u8>,
    pub token: u64,
}

/// An output of a transaction: the DBC it creates and its amount in nanos.
#[derive(Clone, Debug)]
pub struct Output {
    pub dbc_id: Vec<u8>,
    pub token: u64,
}

/// The storage fee a transaction pays.
#[derive(Clone, Debug)]
pub struct FeeOutput {
    /// Expected to be `hash(root_hash || ids of the inputs)`.
    pub id: Vec<u8>,
    /// Amount paid, in nanos.
    pub token: u64,
    /// Root of the Merkle tree of the content addresses paid for.
    pub root_hash: Vec<u8>,
}

impl FeeOutput {
    /// A fee of zero nanos pays for nothing and is not checked.
    pub fn is_free(&self) -> (r: bool)
        ensures
            r == (self.token == 0),
    {
        self.token == 0
    }
}

/// A transaction spending DBCs.
#[derive(Clone, Debug)]
pub struct DbcTransaction {
    pub inputs: Vec<Input>,
    pub outputs: Vec<Output>,
    pub fee: FeeOutput,
}

impl DbcTransaction {
    /// The identifiers of the inputs, in order.
    pub open spec fn input_ids(&self) -> Seq<Seq<u8>> {
        self.inputs@.map_values(|i: Input| i.dbc_id@)
    }

    /// The identifiers of the outputs, in order.
    pub open spec fn output_ids(&self) -> Seq<Seq<u8>> {
        self.outputs@.map_values(|o: Output| o.dbc_id@)
    }

    /// Whether one of the outputs creates the DBC `id`.
    pub fn has_output(&self, id: &Vec<u8>) -> (r: bool)
        ensures
            r == self.output_ids().contains(id@),
    {
        let mut i: usize = 0;
        while i < self.outputs.len()
            invariant
                i <= self.outputs@.len(),
                forall|j: int| 0 <= j < i ==> self.outputs@[j].dbc_id@ != id@,
            decreases self.outputs@.len() - i,
        {
            if bytes_eq(self.outputs[i].dbc_id.as_slice(), id.as_slice()) {
                assert(self.output_ids()[i as int] == id@);
                return true;
            }
            i = i + 1;
        }
        assert forall|j: int| 0 <= j < self.output_ids().len() implies self.output_ids()[j] != id@ by {}
        false
    }
}

/// A witness that the DBC `dbc_id` was spent in the transaction `spent_tx`.
#[derive(Clone, Debug)]
pub struct SignedSpend {
    /// The DBC that was spent.
    pub dbc_id: Vec<u8>,
    /// The transaction the DBC was spent in.
    pub spent_tx: DbcTransaction,
    /// The digest of `spent_tx`.
    pub spent_tx_hash: Vec<u8>,
    /// The bytes that were signed: `dbc_id`, `spent_tx_hash`, then the rest of the spend.
    pub spend_bytes: Vec<u8>,
    /// The signature of `spend_bytes` by the key of `dbc_id`.
    pub derived_key_sig: Vec<u8>,
    /// The DBCs spent by the transaction that created `dbc_id`.
    pub parent_ids: Vec<Vec<u8>>,
}

/// What identifies a signed spend: two spends with the same view are the same witness.
pub struct SpendView {
    pub dbc_id: Seq<u8>,
    pub tx_hash: Seq<u8>,
    pub spend_bytes: Seq<u8>,
    pub sig: Seq<u8>,
}

impl View for SignedSpend {
    type V = SpendView;

    open spec fn view(&self) -> SpendView {
        SpendView {
            dbc_id: self.dbc_id@,
            tx_hash: self.spent_tx_hash@,
            spend_bytes: self.spend_bytes@,
            sig: self.derived_key_sig@,
        }
    }
}

/// The views of a list of spends.
pub open spec fn spend_views(s: Seq<SignedSpend>) -> Seq<SpendView> {
    s.map_values(|x: SignedSpend| x@)
}

/// Canonical order of spends: by signature bytes, then by the signed bytes,
/// the DBC id and the transaction digest.
pub open spec fn spend_lt(a: SpendView, b: SpendView) -> bool {
    bytes_lt(a.sig, b.sig) || (a.sig == b.sig && (bytes_lt(a.spend_bytes, b.spend_bytes) || (
    a.spend_bytes == b.spend_bytes && (bytes_lt(a.dbc_id, b.dbc_id) || (a.dbc_id == b.dbc_id
        && bytes_lt(a.tx_hash, b.tx_hash))))))
}

pub proof fn lemma_spend_lt_irreflexive(a: SpendView)
    ensures
        !spend_lt(a, a),
{
    lemma_bytes_lt_irreflexive(a.sig);
    lemma_bytes_lt_irreflexive(a.spend_bytes);
    lemma_bytes_lt_irreflexive(a.dbc_id);
    lemma_bytes_lt_irreflexive(a.tx_hash);
}

pub proof fn lemma_spend_lt_transitive(a: SpendView, b: SpendView, c: SpendView)
    requires
        spend_lt(a, b),
        spend_lt(b, c),
    ensures
        spend_lt(a, c),
{
    if bytes_lt(a.sig, b.sig) && bytes_lt(b.sig, c.sig) {
        lemma_bytes_lt_transitive(a.sig, b.sig, c.sig);
    }
    if bytes_lt(a.spend_bytes, b.spend_bytes) && bytes_lt(b.spend_bytes, c.spend_bytes) {
        lemma_bytes_lt_transitive(a.spend_bytes, b.spend_bytes, c.spend_bytes);
    }
    if bytes_lt(a.dbc_id, b.dbc_id) && bytes_lt(b.dbc_id, c.dbc_id) {
        lemma_bytes_lt_transitive(a.dbc_id, b.dbc_id, c.dbc_id);
    }
    if bytes_lt(a.tx_hash, b.tx_hash) && bytes_lt(b.tx_hash, c.tx_hash) {
        lemma_bytes_lt_transitive(a.tx_hash, b.tx_hash, c.tx_hash);
    }
}

pub proof fn lemma_spend_lt_total(a: SpendView, b: SpendView)
    ensures
        a == b || spend_lt(a, b) || spend_lt(b, a),
{
    lemma_bytes_lt_total(a.sig, b.sig);
    lemma_bytes_lt_total(a.spend_bytes, b.spend_bytes);
    lemma_bytes_lt_total(a.dbc_id, b.dbc_id);
    lemma_bytes_lt_total(a.tx_hash, b.tx_hash);
}

/// Three-way comparison of two spends in the canonical order.
pub fn spend_cmp(a: &SignedSpend, b: &SignedSpend) -> (r: i8)
    ensures
        r == 0 <==> a@ == b@,
        r < 0 <==> spend_lt(a@, b@),
        r > 0 <==> spend_lt(b@, a@),
{
    proof {
        lemma_spend_lt_irreflexive(a@);
        lemma_spend_lt_total(a@, b@);
    }
    let c = bytes_cmp(a.derived_key_sig.as_slice(), b.derived_key_sig.as_slice());
    if c != 0 {
        return c;
    }
    let c = bytes_cmp(a.spend_bytes.as_slice(), b.spend_bytes.as_slice());
    if c != 0 {
        return c;
    }
    let c = bytes_cmp(a.dbc_id.as_slice(), b.dbc_id.as_slice());
    if c != 0 {
        return c;
    }
    bytes_cmp(a.spent_tx_hash.as_slice(), b.spent_tx_hash.as_slice())
}

/// Whether two spends are the same witness.
pub fn same_spend(a: &SignedSpend, b: &SignedSpend) -> (r: bool)
    ensures
        r == (a@ == b@),
{
    spend_cmp(a, b) == 0
}

/// Whether the signed bytes of a spend begin with its DBC id and then its
/// transaction digest.
pub open spec fn signs_own_tx(s: SpendView) -> bool {
    &&& s.spend_bytes.len() >= s.dbc_id.len() + s.tx_hash.len()
    &&& s.spend_bytes.subrange(0, s.dbc_id.len() as int) == s.dbc_id
    &&& s.spend_bytes.subrange(s.dbc_id.len() as int, (s.dbc_id.len() + s.tx_hash.len()) as int)
        == s.tx_hash
}

/// Whether a spend is authentic: its id and signature have their lengths, its
/// signed bytes name its DBC and transaction, and the signature verifies.
pub open spec fn spend_authentic(s: SpendView) -> bool {
    &&& s.dbc_id.len() == DBC_ID_LEN
    &&& s.tx_hash.len() == NAME_LEN
    &&& s.sig.len() == SIG_LEN
    &&& signs_own_tx(s)
    &&& signature_valid(s.dbc_id, s.sig, s.spend_bytes)
}

impl SignedSpend {
    /// Checks that this spend was signed by the key of its DBC, over bytes
    /// that name its DBC and its transaction.
    pub fn verify(&self) -> (r: bool)
        ensures
            r == spend_authentic(self@),
    {
        let id_len = self.dbc_id.len();
        let hash_len = self.spent_tx_hash.len();
        if id_len != DBC_ID_LEN || hash_len != NAME_LEN || self.derived_key_sig.len() != SIG_LEN {
            return false;
        }
        if self.spend_bytes.len() < id_len + hash_len {
            return false;
        }
        let signed = self.spend_bytes.as_slice();
        let id_part = slice_range(signed, 0, id_len);
        let hash_part = slice_range(signed, id_len, id_len + hash_len);
        if !bytes_eq(id_part, self.dbc_id.as_slice()) || !bytes_eq(
            hash_part,
            self.spent_tx_hash.as_slice(),
        ) {
            return false;
        }
        verify_signature(self.dbc_id.as_slice(), self.derived_key_sig.as_slice(), signed)
    }
}

/// Whether some bytes are a DBC id: a valid key.
pub open spec fn is_key(b: Seq<u8>) -> bool {
    b.len() == DBC_ID_LEN && dbc_key_valid(b)
}

/// Whether every id of a transaction is a valid key, and its fee hashes are
/// 32 bytes long.
pub open spec fn tx_lengths_ok(tx: DbcTransaction) -> bool {
    &&& forall|i: int| 0 <= i < tx.inputs@.len() ==> is_key(#[trigger] tx.inputs@[i].dbc_id@)
    &&& forall|i: int| 0 <= i < tx.outputs@.len() ==> is_key(#[trigger] tx.outputs@[i].dbc_id@)
    &&& tx.fee.id@.len() == NAME_LEN
    &&& tx.fee.root_hash@.len() == NAME_LEN
}

/// Relies on `sn_dbc::DbcTransaction::hash`: the digest of the transaction,
/// which encodes amounts in this machine's byte order.
#[verifier::external_body]
fn dbc_tx_digest(tx: &DbcTransaction) -> (r: Vec<u8>)
    requires
        tx_lengths_ok(*tx),
    ensures
        r@.len() == NAME_LEN,
{
    let key = |b: &[u8]| DbcId::new(PublicKey::from_bytes(b.try_into().unwrap()).unwrap());
    let hash = |b: &[u8]| sn_dbc::Hash::from(<[u8; 32]>::try_from(b).unwrap());
    let inputs = tx.inputs.iter().map(|i| DbcInput::new(key(&i.dbc_id), i.token)).collect();
    let outputs = tx.outputs.iter().map(|o| DbcOutput::new(key(&o.dbc_id), o.token)).collect();
    let fee = DbcFee::new(hash(&tx.fee.id), tx.fee.token, hash(&tx.fee.root_hash));
    DbcTx { inputs, outputs, fee }.hash().slice().to_vec()
}

fn tx_convertible(tx: &DbcTransaction) -> (r: bool)
    ensures
        r == tx_lengths_ok(*tx),
{
    let mut i: usize = 0;
    while i < tx.inputs.len()
        invariant
            i <= tx.inputs@.len(),
            forall|j: int| 0 <= j < i ==> is_key(#[trigger] tx.inputs@[j].dbc_id@),
        decreases tx.inputs@.len() - i,
    {
        let id = tx.inputs[i].dbc_id.as_slice();
        if id.len() != DBC_ID_LEN || !is_dbc_key(id) {
            return false;
        }
        i = i + 1;
    }
    let mut i: usize = 0;
    while i < tx.outputs.len()
        invariant
            i <= tx.outputs@.len(),
            forall|j: int| 0 <= j < i ==> is_key(#[trigger] tx.outputs@[j].dbc_id@),
        decreases tx.outputs@.len() - i,
    {
        let id = tx.outputs[i].dbc_id.as_slice();
        if id.len() != DBC_ID_LEN || !is_dbc_key(id) {
            return false;
        }
        i = i + 1;
    }
    tx.fee.id.len() == NAME_LEN && tx.fee.root_hash.len() == NAME_LEN
}

impl SignedSpend {
    /// Whether the transaction digest this spend signed is the digest of the
    /// transaction it carries.
    pub fn tx_matches(&self) -> (r: bool)
        ensures
            r ==> self.spent_tx_hash@.len() == NAME_LEN,
    {
        if !tx_convertible(&self.spent_tx) {
            return false;
        }
        let h = dbc_tx_digest(&self.spent_tx);
        bytes_eq(h.as_slice(), self.spent_tx_hash.as_slice())
    }
}

/// A copy of some bytes.
pub fn copy_bytes(s: &[u8]) -> (r: Vec<u8>)
    ensures
        r@ == s@,
{
    let mut r: Vec<u8> = Vec::new();
    let mut i: usize = 0;
    while i < s.len()
        invariant
            i <= s@.len(),
            r@ == s@.take(i as int),
        decreases s@.len() - i,
    {
        r.push(s[i]);
        i = i + 1;
        assert(r@ =~= s@.take(i as int));
    }
    assert(s@.take(i as int) =~= s@);
    r
}

impl SignedSpend {
    /// A copy of this spend: the same witness.
    pub fn duplicate(&self) -> (r: SignedSpend)
        ensures
            r@ == self@,
    {
        SignedSpend {
            dbc_id: copy_bytes(self.dbc_id.as_slice()),
            spent_tx: self.spent_tx.clone(),
            spent_tx_hash: copy_bytes(self.spent_tx_hash.as_slice()),
            spend_bytes: copy_bytes(self.spend_bytes.as_slice()),
            derived_key_sig: copy_bytes(self.derived_key_sig.as_slice()),
            parent_ids: self.parent_ids.clone(),
        }
    }
}

/// The bytes of `s` from `start` up to `end`.
pub fn slice_range(s: &[u8], start: usize, end: usize) -> (r: &[u8])
    requires
        start <= end <= s@.len(),
    ensures
        r@ == s@.subrange(start as int, end as int),
{
    let (head, _) = s.split_at(end);
    let (_, mid) = head.split_at(start);
    assert(mid@ =~= s@.subrange(start as int, end as int));
    mid
}

} // verus!
