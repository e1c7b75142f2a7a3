//! Payment proofs: the fee output of a transaction and the Merkle audit
//! trail that binds a content address to it.
use vstd::prelude::*;
use crate::bytes::bytes_eq;
use crate::dbc::{copy_bytes, DbcTransaction, SignedSpend};
use crate::error::Error;
use crate::names::{content_name, hash_bytes, sha3_256_of, xor_name_of, NAME_LEN};

verus! {

/// A node of a Merkle audit trail.
pub type MerkleTreeNodesType = [u8; 32];

/// The proof that a content address was paid for.
#[derive(Clone, Debug)]
pub struct PaymentProof {
    /// The DBCs spent by the paying transaction.
    pub spent_ids: Vec<Vec<u8>>,
    /// The sibling hashes from the address's leaf up to the root.
    pub audit_trail: Vec<MerkleTreeNodesType>,
    /// At each level, on which side the path runs.
    pub path: Vec<usize>,
}

/// The leaf index that the audit trail `trail` and path `path` prove for the
/// address `addr` under the root `root`, if they prove one.
pub uninterp spec fn payment_proof_leaf(
    addr: Seq<u8>,
    root: Seq<u8>,
    trail: Seq<MerkleTreeNodesType>,
    path: Seq<usize>,
) -> Option<usize>;

/// Relies on `sn_transfers::payment_proof::validate_payment_proof`: checks the
/// audit trail of `addr_name` against `root_hash` and returns the leaf index;
/// its error is handed on as text.
#[verifier::external_body]
fn validate_payment_proof(
    addr_name: &[u8],
    root_hash: &[u8],
    audit_trail: &[MerkleTreeNodesType],
    path: &[usize],
) -> (r: Result<usize, String>)
    requires
        addr_name@.len() == NAME_LEN,
    ensures
        r is Ok ==> root_hash@.len() == NAME_LEN,
        root_hash@.len() == NAME_LEN ==> match r {
            Ok(i) => payment_proof_leaf(addr_name@, root_hash@, audit_trail@, path@) == Some(i),
            Err(_) => payment_proof_leaf(addr_name@, root_hash@, audit_trail@, path@) is None,
        },
{
    let addr: [u8; 32] = addr_name.try_into().map_err(|_| String::from("name length"))?;
    let root: [u8; 32] = root_hash.try_into().map_err(|_| String::from("hash length"))?;
    sn_transfers::payment_proof::validate_payment_proof(
        xor_name::XorName(addr),
        &sn_dbc::Hash::from(root),
        audit_trail,
        path,
    ).map_err(|e| e.to_string())
}

/// The byte strings of `ids`, one after the other.
pub open spec fn concat(ids: Seq<Seq<u8>>) -> Seq<u8>
    decreases ids.len(),
{
    if ids.len() == 0 {
        seq![]
    } else {
        concat(ids.drop_last()) + ids.last()
    }
}

/// What the fee output id of `tx` is the digest of: its root hash, then the
/// ids of its inputs.
pub open spec fn fee_id_preimage(tx: DbcTransaction) -> Seq<u8> {
    tx.fee.root_hash@ + concat(tx.input_ids())
}

/// A free fee is not checked; any other fee's id must be the digest of its
/// root hash and the ids of the inputs.
pub open spec fn fee_output_id_valid(tx: DbcTransaction) -> bool {
    tx.fee.token == 0 || tx.fee.id@ == sha3_256_of(fee_id_preimage(tx))
}

/// The leaf that the audit trail proves for `addr` under the root hash of
/// the fee of `tx`; a root hash that is no 32-byte digest roots no tree.
pub open spec fn proven_leaf(
    addr: Seq<u8>,
    tx: DbcTransaction,
    trail: Seq<MerkleTreeNodesType>,
    path: Seq<usize>,
) -> Option<usize> {
    if tx.fee.root_hash@.len() == NAME_LEN {
        payment_proof_leaf(addr, tx.fee.root_hash@, trail, path)
    } else {
        None
    }
}

/// Checks that the fee output id of a transaction that pays a fee is
/// `hash(root_hash || ids of the inputs)`.
pub fn verify_fee_output_id(spent_tx: &DbcTransaction) -> (r: Result<(), Error>)
    ensures
        r is Ok <==> fee_output_id_valid(*spent_tx),
        match r {
            Ok(_) => true,
            Err(Error::PaymentProofInvalidFeeOutput(id)) => id@ == spent_tx.fee.id@,
            Err(_) => false,
        },
{
    let fee = &spent_tx.fee;
    if fee.is_free() {
        return Ok(());
    }
    let mut fee_id_bytes = copy_bytes(fee.root_hash.as_slice());
    let ghost ids = spent_tx.input_ids();
    let mut i: usize = 0;
    while i < spent_tx.inputs.len()
        invariant
            ids == spent_tx.input_ids(),
            i <= spent_tx.inputs@.len(),
            fee_id_bytes@ == spent_tx.fee.root_hash@ + concat(ids.take(i as int)),
        decreases spent_tx.inputs@.len() - i,
    {
        let id = &spent_tx.inputs[i].dbc_id;
        let mut j: usize = 0;
        let ghost before = fee_id_bytes@;
        while j < id.len()
            invariant
                j <= id@.len(),
                fee_id_bytes@ == before + id@.take(j as int),
            decreases id@.len() - j,
        {
            fee_id_bytes.push(id[j]);
            j = j + 1;
            assert(fee_id_bytes@ =~= before + id@.take(j as int));
        }
        assert(id@.take(j as int) =~= id@);
        assert(ids.take(i + 1).drop_last() =~= ids.take(i as int));
        assert(ids[i as int] == id@);
        i = i + 1;
        assert(fee_id_bytes@ =~= spent_tx.fee.root_hash@ + concat(ids.take(i as int)));
    }
    assert(ids.take(i as int) =~= ids);
    let expected = hash_bytes(fee_id_bytes.as_slice());
    if !bytes_eq(fee.id.as_slice(), expected.as_slice()) {
        return Err(Error::PaymentProofInvalidFeeOutput(copy_bytes(fee.id.as_slice())));
    }
    Ok(())
}

/// What checking the payment of `addr` by `tx` gives, once the audit trail has
/// given `leaf` (`None` when it proves nothing).
pub open spec fn payment_check(
    r: Result<(), Error>,
    addr: Seq<u8>,
    tx: DbcTransaction,
    leaf: Option<usize>,
) -> bool {
    match r {
        Ok(_) => {
            &&& fee_output_id_valid(tx)
            &&& leaf is Some
            &&& tx.fee.token > leaf.unwrap()
        },
        Err(Error::PaymentProofInvalidFeeOutput(id)) => {
            &&& !fee_output_id_valid(tx)
            &&& id@ == tx.fee.id@
        },
        Err(Error::InvalidPaymentProof { addr_name, reason: _ }) => {
            &&& fee_output_id_valid(tx)
            &&& leaf is None
            &&& addr_name@ == addr
        },
        Err(Error::PaymentProofInsufficientAmount { paid, expected }) => {
            &&& fee_output_id_valid(tx)
            &&& leaf is Some
            &&& tx.fee.token <= leaf.unwrap()
            &&& paid == tx.fee.token
            &&& expected == leaf.unwrap() + 1
        },
        Err(_) => false,
    }
}

/// Completes the check of a payment once the audit trail has been walked:
/// `leaf` is the leaf index it proved, or why it proved none. The fee output
/// id must be valid, the trail must prove a leaf, and the fee must pay at
/// least one nano for each position up to and including that leaf.
pub fn check_payment(addr_name: &[u8], tx: &DbcTransaction, leaf: Result<usize, String>) -> (r:
    Result<(), Error>)
    ensures
        payment_check(
            r,
            addr_name@,
            *tx,
            match leaf {
                Ok(i) => Some(i),
                Err(_) => None,
            },
        ),
{
    verify_fee_output_id(tx)?;
    match leaf {
        Err(reason) => Err(Error::InvalidPaymentProof { addr_name: copy_bytes(addr_name), reason }),
        Ok(leaf_index) => {
            let paid = tx.fee.token;
            if (paid as u128) <= (leaf_index as u128) {
                Err(
                    Error::PaymentProofInsufficientAmount {
                        paid,
                        expected: leaf_index as u128 + 1,
                    },
                )
            } else {
                Ok(())
            }
        },
    }
}

/// Checks that the fee output id and amount of `tx` are correct, and that the
/// audit trail binds `addr_name` to the fee output's root hash.
pub fn verify_fee_output_and_proof(
    addr_name: &[u8],
    tx: &DbcTransaction,
    audit_trail: &[MerkleTreeNodesType],
    path: &[usize],
) -> (r: Result<(), Error>)
    requires
        addr_name@.len() == NAME_LEN,
    ensures
        payment_check(r, addr_name@, *tx, proven_leaf(addr_name@, *tx, audit_trail@, path@)),
{
    verify_fee_output_id(tx)?;
    let leaf = validate_payment_proof(addr_name, tx.fee.root_hash.as_slice(), audit_trail, path);
    check_payment(addr_name, tx, leaf)
}

/// What the network holds for one spent DBC of a payment: the aggregated
/// witnesses, or `None` when they could not be had.
pub type FetchedSpends = Option<Vec<SignedSpend>>;

/// Where the search for the paying transaction stands.
pub enum Gather {
    /// No spent DBC seen yet.
    NoInput,
    /// The witness of the `k`-th spent DBC gives the transaction.
    Tx(int),
    /// The witnesses of the `i`-th spent DBC could not be had, or there are none.
    NotFound(int),
    /// The `i`-th spent DBC has two witnesses.
    DoubleSpend(int),
    /// The witnesses do not agree on one transaction.
    Mismatch,
}

/// The witnesses of the `i`-th spent DBC.
pub open spec fn witnesses(fetched: Seq<FetchedSpends>, i: int) -> Seq<SignedSpend> {
    match fetched[i] {
        Some(w) => w@,
        None => seq![],
    }
}

/// The search for the paying transaction over the first `n` spent DBCs, in
/// order: the first that has no witness or two of them, or whose witness is of
/// another transaction than the first one, ends it.
pub open spec fn gather(fetched: Seq<FetchedSpends>, n: int) -> Gather
    decreases n,
{
    if n <= 0 {
        Gather::NoInput
    } else {
        let prev = gather(fetched, n - 1);
        let w = witnesses(fetched, n - 1);
        match prev {
            Gather::NoInput => if fetched[n - 1] is None || w.len() == 0 {
                Gather::NotFound(n - 1)
            } else if w.len() > 1 {
                Gather::DoubleSpend(n - 1)
            } else {
                Gather::Tx(n - 1)
            },
            Gather::Tx(k) => if fetched[n - 1] is None || w.len() == 0 {
                Gather::NotFound(n - 1)
            } else if w.len() > 1 {
                Gather::DoubleSpend(n - 1)
            } else if w[0].spent_tx_hash@ != witnesses(fetched, k)[0].spent_tx_hash@ {
                Gather::Mismatch
            } else {
                Gather::Tx(k)
            },
            _ => prev,
        }
    }
}

proof fn lemma_gather_stays(fetched: Seq<FetchedSpends>, n: int, m: int)
    requires
        0 <= n <= m,
    ensures
        !(gather(fetched, n) is NoInput) && !(gather(fetched, n) is Tx) ==> gather(fetched, m)
            == gather(fetched, n),
    decreases m - n,
{
    if n < m {
        lemma_gather_stays(fetched, n + 1, m);
    }
}

/// What validating a chunk's payment gives, given the witnesses fetched for
/// each spent DBC.
pub open spec fn payment_validation(
    r: Result<(), Error>,
    addr: Seq<u8>,
    proof: PaymentProof,
    fetched: Seq<FetchedSpends>,
) -> bool {
    match gather(fetched, fetched.len() as int) {
        Gather::NoInput => r matches Err(Error::PaymentProofWithoutInputs(a)) && a@ == addr,
        Gather::NotFound(i) => r matches Err(Error::SpendNotFound(a)) && a@ == xor_name_of(
            proof.spent_ids@[i]@,
        ),
        Gather::DoubleSpend(i) => r matches Err(Error::DoubleSpendAttempt(w1, w2)) && w1@
            == witnesses(fetched, i)[0]@ && w2@ == witnesses(fetched, i)[1]@,
        Gather::Mismatch => r matches Err(Error::PaymentProofTxMismatch(a)) && a@ == addr,
        Gather::Tx(k) => {
            let tx = witnesses(fetched, k)[0].spent_tx;
            payment_check(r, addr, tx, proven_leaf(addr, tx, proof.audit_trail@, proof.path@))
        },
    }
}

/// Validates the payment for the chunk named `addr_name`: `fetched[i]` holds
/// the aggregated witnesses that the network gave for the `i`-th spent DBC of
/// the proof. Each spent DBC must have exactly one witness, all of one
/// transaction, whose fee output the proof must then pay into.
pub fn chunk_payment_validation(
    addr_name: &[u8],
    payment: &PaymentProof,
    fetched: &Vec<FetchedSpends>,
) -> (r: Result<(), Error>)
    requires
        addr_name@.len() == NAME_LEN,
        fetched@.len() == payment.spent_ids@.len(),
    ensures
        payment_validation(r, addr_name@, *payment, fetched@),
{
    let mut payment_tx: Option<usize> = None;
    let mut i: usize = 0;
    while i < fetched.len()
        invariant
            fetched@.len() == payment.spent_ids@.len(),
            i <= fetched@.len(),
            match gather(fetched@, i as int) {
                Gather::NoInput => payment_tx is None,
                Gather::Tx(k) => {
                    &&& payment_tx matches Some(j) && j == k
                    &&& 0 <= k < i
                    &&& fetched@[k] is Some
                    &&& witnesses(fetched@, k).len() == 1
                },
                _ => false,
            },
        decreases fetched@.len() - i,
    {
        let ghost w = witnesses(fetched@, i as int);
        proof {
            lemma_gather_stays(fetched@, i + 1, fetched@.len() as int);
        }
        match &fetched[i] {
            None => {
                return Err(Error::SpendNotFound(content_name(payment.spent_ids[i].as_slice())));
            },
            Some(spends) => {
                if spends.len() == 0 {
                    return Err(
                        Error::SpendNotFound(content_name(payment.spent_ids[i].as_slice())),
                    );
                } else if spends.len() > 1 {
                    assert(w == spends@);
                    return Err(
                        Error::DoubleSpendAttempt(
                            Box::new(spends[0].duplicate()),
                            Box::new(spends[1].duplicate()),
                        ),
                    );
                } else {
                    match payment_tx {
                        None => {
                            payment_tx = Some(i);
                        },
                        Some(k) => {
                            let first = match &fetched[k] {
                                Some(f) => f,
                                None => {
                                    return Err(Error::PaymentProofWithoutInputs(copy_bytes(addr_name)));
                                },
                            };
                            if !bytes_eq(
                                spends[0].spent_tx_hash.as_slice(),
                                first[0].spent_tx_hash.as_slice(),
                            ) {
                                return Err(Error::PaymentProofTxMismatch(copy_bytes(addr_name)));
                            }
                        },
                    }
                }
            },
        }
        i = i + 1;
    }
    match payment_tx {
        None => Err(Error::PaymentProofWithoutInputs(copy_bytes(addr_name))),
        Some(k) => match &fetched[k] {
            Some(f) => verify_fee_output_and_proof(
                addr_name,
                &f[0].spent_tx,
                payment.audit_trail.as_slice(),
                payment.path.as_slice(),
            ),
            None => Err(Error::PaymentProofWithoutInputs(copy_bytes(addr_name))),
        },
    }
}

} // verus!
