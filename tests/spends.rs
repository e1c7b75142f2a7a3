use sn_node::aggregate::aggregate_spends;
use sn_node::dbc::{DbcTransaction, FeeOutput, Input, Output, SignedSpend};
use sn_node::error::Error;
use sn_node::store::dbc_address_name;
use sn_node::payment::{
    chunk_payment_validation, verify_fee_output_and_proof, verify_fee_output_id, PaymentProof,
};
use sn_node::validation::{check_parent_spends, check_single_spend};
use xor_name::XorName;

fn free_tx() -> DbcTransaction {
    DbcTransaction {
        inputs: vec![],
        outputs: vec![],
        fee: FeeOutput { id: vec![0; 32], token: 0, root_hash: vec![0; 32] },
    }
}

fn spend(id: u8, tx: u8, sig: u8) -> SignedSpend {
    let dbc_id = vec![id; 48];
    let spent_tx_hash = vec![tx; 32];
    let mut spend_bytes = dbc_id.clone();
    spend_bytes.extend(&spent_tx_hash);
    SignedSpend {
        dbc_id,
        spent_tx: free_tx(),
        spent_tx_hash,
        spend_bytes,
        derived_key_sig: vec![sig; 96],
        parent_ids: vec![],
    }
}

fn views(s: &[SignedSpend]) -> Vec<(Vec<u8>, Vec<u8>, Vec<u8>)> {
    s.iter()
        .map(|x| (x.dbc_id.clone(), x.spent_tx_hash.clone(), x.derived_key_sig.clone()))
        .collect()
}

#[test]
fn aggregate_keeps_both_witnesses_of_a_double_spend() {
    let a = spend(1, 10, 7);
    let b = spend(1, 11, 3);
    let r = aggregate_spends(vec![a.clone(), b.clone()], &vec![1; 48]);
    // ordered by signature bytes: b's signature comes first
    assert_eq!(views(&r), views(&[b, a]));
}

#[test]
fn aggregate_is_bounded_and_drops_other_dbcs() {
    let xs = vec![spend(1, 10, 5), spend(1, 10, 4), spend(2, 10, 1), spend(1, 10, 3), spend(1, 10, 9)];
    let r = aggregate_spends(xs, &vec![1; 48]);
    assert!(r.len() <= 2);
    assert_eq!(views(&r), views(&[spend(1, 10, 3), spend(1, 10, 4)]));
}

#[test]
fn aggregate_prefers_a_second_transaction() {
    let xs = vec![spend(1, 10, 1), spend(1, 10, 2), spend(1, 12, 9), spend(1, 13, 8)];
    let r = aggregate_spends(xs, &vec![1; 48]);
    assert_eq!(views(&r), views(&[spend(1, 10, 1), spend(1, 13, 8)]));
}

#[test]
fn aggregate_is_idempotent_and_ignores_order() {
    let xs = vec![spend(1, 10, 6), spend(1, 11, 2), spend(1, 12, 4), spend(1, 10, 6)];
    let mut ys = xs.clone();
    ys.reverse();
    let once = aggregate_spends(xs, &vec![1; 48]);
    let twice = aggregate_spends(once.clone(), &vec![1; 48]);
    let reversed = aggregate_spends(ys, &vec![1; 48]);
    assert_eq!(views(&once), views(&twice));
    assert_eq!(views(&once), views(&reversed));
}

#[test]
fn aggregate_of_nothing_is_empty() {
    assert!(aggregate_spends(vec![], &vec![1; 48]).is_empty());
    assert!(aggregate_spends(vec![spend(2, 1, 1)], &vec![1; 48]).is_empty());
}

#[test]
fn names_are_sha3_digests() {
    assert_eq!(dbc_address_name(b"hello world"), XorName::from_content(b"hello world").0.to_vec());
    let expected: Vec<u8> = vec![
        0x64, 0x4b, 0xcc, 0x7e, 0x56, 0x43, 0x73, 0x04, 0x09, 0x99, 0xaa, 0xc8, 0x9e, 0x76, 0x22,
        0xf3, 0xca, 0x71, 0xfb, 0xa1, 0xd9, 0x72, 0xfd, 0x94, 0xa3, 0x1c, 0x3b, 0xfb, 0xf2, 0x4e,
        0x39, 0x38,
    ];
    let tx = DbcTransaction {
        inputs: vec![],
        outputs: vec![],
        fee: FeeOutput { id: expected, token: 1, root_hash: b"hello world".to_vec() },
    };
    assert!(verify_fee_output_id(&tx).is_ok());
}

fn paying_tx(root: &[u8], token: u64, inputs: Vec<Vec<u8>>) -> DbcTransaction {
    let mut pre = root.to_vec();
    for i in &inputs {
        pre.extend(i);
    }
    DbcTransaction {
        inputs: inputs.into_iter().map(|dbc_id| Input { dbc_id, token: 1 }).collect(),
        outputs: vec![],
        fee: FeeOutput { id: sn_dbc::Hash::hash(&pre).slice().to_vec(), token, root_hash: root.to_vec() },
    }
}

#[test]
fn fee_output_id_binds_root_and_inputs() {
    let root = vec![9u8; 32];
    let tx = paying_tx(&root, 5, vec![vec![1; 48], vec![2; 48]]);
    assert!(verify_fee_output_id(&tx).is_ok());
    let mut wrong = paying_tx(&root, 5, vec![vec![1; 48], vec![2; 48]]);
    wrong.fee.id = vec![123; 32];
    assert!(matches!(verify_fee_output_id(&wrong), Err(Error::PaymentProofInvalidFeeOutput(id)) if id == vec![123u8; 32]));
    wrong.fee.token = 0;
    assert!(verify_fee_output_id(&wrong).is_ok());
}

fn names(n: usize) -> Vec<XorName> {
    (0..n).map(|i| XorName::from_content(&[i as u8, 7])).collect()
}

#[test]
fn payment_proof_happy_path() {
    let names = names(10);
    let (root, proofs) = sn_transfers::payment_proof::build_payment_proofs(names.iter()).unwrap();
    let tx = paying_tx(root.slice(), 10, vec![]);
    for name in names.iter() {
        let (trail, path) = proofs.get(name).unwrap();
        assert!(verify_fee_output_and_proof(&name.0, &tx, trail, path).is_ok());
    }
}

#[test]
fn payment_underpayment() {
    let names = names(10);
    let (root, proofs) = sn_transfers::payment_proof::build_payment_proofs(names.iter()).unwrap();
    for (i, name) in names.iter().enumerate() {
        let tx = paying_tx(root.slice(), i as u64, vec![]);
        let (trail, path) = proofs.get(name).unwrap();
        assert!(matches!(
            verify_fee_output_and_proof(&name.0, &tx, trail, path),
            Err(Error::PaymentProofInsufficientAmount { paid, expected })
                if paid == i as u64 && expected == i as u128 + 1
        ));
        let more = paying_tx(root.slice(), 11, vec![]);
        assert!(verify_fee_output_and_proof(&name.0, &more, trail, path).is_ok());
    }
}

#[test]
fn payment_tampered_trail() {
    let names = names(10);
    let (root, proofs) = sn_transfers::payment_proof::build_payment_proofs(names.iter()).unwrap();
    let tx = paying_tx(root.slice(), 10, vec![]);
    for name in names.iter() {
        let (trail, path) = proofs.get(name).unwrap();
        assert!(matches!(
            verify_fee_output_and_proof(&name.0, &tx, &[], path),
            Err(Error::InvalidPaymentProof { addr_name, .. }) if addr_name == name.0.to_vec()
        ));
        assert!(matches!(
            verify_fee_output_and_proof(&name.0, &tx, trail, &[]),
            Err(Error::InvalidPaymentProof { addr_name, .. }) if addr_name == name.0.to_vec()
        ));
        let mut bad = paying_tx(root.slice(), 10, vec![]);
        bad.fee.id = vec![123; 32];
        assert!(matches!(
            verify_fee_output_and_proof(&name.0, &bad, trail, &[]),
            Err(Error::PaymentProofInvalidFeeOutput(id)) if id == vec![123u8; 32]
        ));
    }
}

fn witness_with_tx(id: u8, tx: DbcTransaction, tx_hash: u8) -> SignedSpend {
    let mut s = spend(id, tx_hash, 1);
    s.spent_tx = tx;
    s
}

#[test]
fn chunk_payment_needs_one_transaction() {
    let names = names(4);
    let (root, proofs) = sn_transfers::payment_proof::build_payment_proofs(names.iter()).unwrap();
    let ids = vec![vec![1u8; 48], vec![2u8; 48]];
    let tx = paying_tx(root.slice(), 4, ids.clone());
    let (trail, path) = proofs.get(&names[2]).unwrap();
    let proof = PaymentProof { spent_ids: ids.clone(), audit_trail: trail.clone(), path: path.clone() };
    let fetched = vec![
        Some(vec![witness_with_tx(1, tx.clone(), 5)]),
        Some(vec![witness_with_tx(2, tx.clone(), 5)]),
    ];
    assert!(chunk_payment_validation(&names[2].0, &proof, &fetched).is_ok());

    let mismatch = vec![
        Some(vec![witness_with_tx(1, tx.clone(), 5)]),
        Some(vec![witness_with_tx(2, tx.clone(), 6)]),
    ];
    assert!(matches!(
        chunk_payment_validation(&names[2].0, &proof, &mismatch),
        Err(Error::PaymentProofTxMismatch(a)) if a == names[2].0.to_vec()
    ));

    let missing = vec![Some(vec![witness_with_tx(1, tx.clone(), 5)]), None];
    assert!(matches!(
        chunk_payment_validation(&names[2].0, &proof, &missing),
        Err(Error::SpendNotFound(a)) if a == XorName::from_content(&ids[1]).0.to_vec()
    ));

    let double = vec![Some(vec![spend(1, 5, 1), spend(1, 6, 2)]), Some(vec![])];
    assert!(matches!(
        chunk_payment_validation(&names[2].0, &proof, &double),
        Err(Error::DoubleSpendAttempt(a, b)) if a.spent_tx_hash == vec![5u8; 32] && b.spent_tx_hash == vec![6u8; 32]
    ));

    let none = PaymentProof { spent_ids: vec![], audit_trail: trail.clone(), path: path.clone() };
    assert!(matches!(
        chunk_payment_validation(&names[2].0, &none, &vec![]),
        Err(Error::PaymentProofWithoutInputs(a)) if a == names[2].0.to_vec()
    ));
}

fn digest(tx: &DbcTransaction) -> Vec<u8> {
    let key = |b: &Vec<u8>| {
        let a: [u8; 48] = b.as_slice().try_into().unwrap();
        sn_dbc::DbcId::new(sn_dbc::PublicKey::from_bytes(a).unwrap())
    };
    let hash = |b: &Vec<u8>| sn_dbc::Hash::from(<[u8; 32]>::try_from(b.as_slice()).unwrap());
    sn_dbc::DbcTransaction {
        inputs: tx.inputs.iter().map(|i| sn_dbc::Input::new(key(&i.dbc_id), i.token)).collect(),
        outputs: tx.outputs.iter().map(|o| sn_dbc::Output::new(key(&o.dbc_id), o.token)).collect(),
        fee: sn_dbc::FeeOutput::new(hash(&tx.fee.id), tx.fee.token, hash(&tx.fee.root_hash)),
    }
    .hash()
    .slice()
    .to_vec()
}

fn signed_spend(sk: &sn_dbc::blsttc::SecretKey, tx: DbcTransaction, parents: Vec<Vec<u8>>) -> SignedSpend {
    let dbc_id = sk.public_key().to_bytes().to_vec();
    let spent_tx_hash = digest(&tx);
    let mut spend_bytes = dbc_id.clone();
    spend_bytes.extend(&spent_tx_hash);
    spend_bytes.extend(b"reason and amount");
    let derived_key_sig = sk.sign(&spend_bytes).to_bytes().to_vec();
    SignedSpend { dbc_id, spent_tx: tx, spent_tx_hash, spend_bytes, derived_key_sig, parent_ids: parents }
}

#[test]
fn signatures_verify_under_their_key_only() {
    let sk = sn_dbc::blsttc::SecretKey::random();
    let s = signed_spend(&sk, free_tx(), vec![]);
    assert!(s.verify());
    assert!(s.tx_matches());
    let mut tampered = s.clone();
    tampered.spend_bytes.push(0);
    assert!(!tampered.verify());
    let mut other_tx = s.clone();
    other_tx.spent_tx.fee.token = 9;
    assert!(other_tx.verify());
    assert!(!other_tx.tx_matches());
    let mut other_key = s.clone();
    other_key.dbc_id = sn_dbc::blsttc::SecretKey::random().public_key().to_bytes().to_vec();
    other_key.spend_bytes[..48].copy_from_slice(&other_key.dbc_id);
    assert!(!other_key.verify());
}

#[test]
fn single_spend_is_checked_then_aggregated() {
    let parent_sk = sn_dbc::blsttc::SecretKey::random();
    let child_sk = sn_dbc::blsttc::SecretKey::random();
    let child_id = child_sk.public_key().to_bytes().to_vec();
    let mut parent_tx = free_tx();
    parent_tx.outputs.push(Output { dbc_id: child_id.clone(), token: 3 });
    let parent = signed_spend(&parent_sk, parent_tx, vec![]);
    let child = signed_spend(&child_sk, free_tx(), vec![parent.dbc_id.clone()]);

    let parents = vec![Some(vec![parent.clone()])];
    assert!(check_parent_spends(&child, &parents));
    let r = check_single_spend(child.clone(), &parents, vec![]).unwrap();
    assert_eq!(views(&r), views(&[child.clone()]));

    let wrong_parent = signed_spend(&parent_sk, free_tx(), vec![]);
    assert!(!check_parent_spends(&child, &vec![Some(vec![wrong_parent.clone()])]));
    assert!(matches!(
        check_single_spend(child.clone(), &vec![Some(vec![wrong_parent])], vec![]),
        Err(Error::InvalidSpendParents)
    ));
    assert!(matches!(check_single_spend(child.clone(), &vec![None], vec![]), Err(Error::InvalidSpendParents)));

    let mut swapped_tx = child.clone();
    swapped_tx.spent_tx.fee.root_hash = vec![1; 32];
    assert!(matches!(check_single_spend(swapped_tx, &parents, vec![]), Err(Error::InvalidSpendSignature)));

    let mut forged = child.clone();
    forged.derived_key_sig = parent.derived_key_sig.clone();
    assert!(matches!(check_single_spend(forged, &parents, vec![]), Err(Error::InvalidSpendSignature)));

    let mut bad_fee = free_tx();
    bad_fee.fee.token = 1;
    let unpaid = signed_spend(&child_sk, bad_fee, vec![parent.dbc_id.clone()]);
    assert!(matches!(
        check_single_spend(unpaid, &parents, vec![]),
        Err(Error::PaymentProofInvalidFeeOutput(_))
    ));

    let other = spend(child_id[0], 1, 0);
    let mut other = other;
    other.dbc_id = child_id.clone();
    let r = check_single_spend(child.clone(), &parents, vec![other.clone()]).unwrap();
    assert_eq!(r.len(), 2);
    assert_eq!(views(&r), views(&[other, child]));
}
