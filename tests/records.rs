use sn_node::codec::{
    try_deserialize_record, try_serialize_record, Record, RecordHeader, RecordKind, RECORD_VERSION,
};
use sn_node::dbc::{DbcTransaction, FeeOutput, SignedSpend};
use sn_node::error::{Error, SpendNotStoredReason};
use sn_node::payment::PaymentProof;
use sn_node::register::RegisterEntry;
use sn_node::store::{Chunk, ChunkWithPayment, LocalStore, RecordValue};
use sn_node::validation::{
    check_record_key, plan_spends, store_spends, validate_and_store_chunk,
    validate_and_store_record, validate_and_store_register, Admission, CmdOk, SpendPlan,
};
use xor_name::XorName;

#[test]
fn framing_round_trips() {
    for kind in [RecordKind::Chunk, RecordKind::DbcSpend, RecordKind::Register] {
        let payload = vec![5u8, 6, 7];
        let framed = try_serialize_record(&payload, kind);
        assert_eq!(framed.len(), payload.len() + 2);
        assert_eq!(framed[0], RECORD_VERSION);
        let header = RecordHeader::from_bytes(&framed).unwrap();
        assert_eq!(header.kind, kind);
        assert_eq!(try_deserialize_record(&framed, kind).unwrap(), payload);
        let record = Record { key: vec![1; 32], value: framed };
        assert_eq!(RecordHeader::from_record(&record).unwrap().kind, kind);
    }
    assert_eq!(try_serialize_record(&[], RecordKind::DbcSpend), vec![RECORD_VERSION, 1]);
    assert_eq!(try_serialize_record(&[9], RecordKind::Register), vec![RECORD_VERSION, 2, 9]);
}

#[test]
fn framing_refuses_other_kinds_and_bad_headers() {
    let framed = try_serialize_record(&[1, 2], RecordKind::Chunk);
    assert!(matches!(
        try_deserialize_record(&framed, RecordKind::Register),
        Err(Error::RecordKindMismatch(RecordKind::Register))
    ));
    assert!(matches!(RecordHeader::from_bytes(&[RECORD_VERSION]), Err(Error::RecordHeaderParsingFailed)));
    assert!(matches!(RecordHeader::from_bytes(&[RECORD_VERSION, 3]), Err(Error::RecordHeaderParsingFailed)));
    assert!(matches!(RecordHeader::from_bytes(&[RECORD_VERSION + 1, 0]), Err(Error::RecordHeaderParsingFailed)));
}

fn chunk(content: &[u8], payment: Option<PaymentProof>) -> ChunkWithPayment {
    ChunkWithPayment {
        chunk: Chunk { address: XorName::from_content(content).0.to_vec(), value: content.to_vec() },
        payment,
    }
}

#[test]
fn chunk_is_stored_once() {
    let mut store = LocalStore::new();
    let c = chunk(b"some content", None);
    let key = c.chunk.address.clone();
    assert!(matches!(validate_and_store_chunk(&mut store, c, &vec![]), Ok(CmdOk::StoredSuccessfully)));
    assert!(store.contains_key(&key));
    // a different payment is not even looked at
    let proof = PaymentProof { spent_ids: vec![vec![1; 48]], audit_trail: vec![], path: vec![] };
    let again = chunk(b"some content", Some(proof));
    assert!(matches!(validate_and_store_chunk(&mut store, again, &vec![None]), Ok(CmdOk::DataAlreadyPresent)));
    match store.get(&key) {
        Some(RecordValue::Chunk(stored)) => assert!(stored.payment.is_none()),
        _ => panic!("chunk missing"),
    }
}

#[test]
fn chunk_with_bad_payment_is_not_stored() {
    let mut store = LocalStore::new();
    let proof = PaymentProof { spent_ids: vec![vec![1; 48]], audit_trail: vec![], path: vec![] };
    let c = chunk(b"paid content", Some(proof));
    let key = c.chunk.address.clone();
    assert!(matches!(validate_and_store_chunk(&mut store, c, &vec![None]), Err(Error::SpendNotFound(_))));
    assert!(!store.contains_key(&key));
}

#[test]
fn record_key_must_match_the_value() {
    let c = chunk(b"content", None);
    let key = c.chunk.address.clone();
    assert!(check_record_key(&key, &RecordValue::Chunk(c.clone())).is_ok());
    assert!(matches!(check_record_key(&[0; 32], &RecordValue::Chunk(c)), Err(Error::RecordKeyMismatch)));
    let s = spend(1, 2, 3);
    let spend_key = XorName::from_content(&s.dbc_id).0.to_vec();
    assert!(check_record_key(&spend_key, &RecordValue::DbcSpend(vec![s.clone()])).is_ok());
    assert!(matches!(
        check_record_key(&spend_key, &RecordValue::DbcSpend(vec![s, spend(2, 2, 3)])),
        Err(Error::RecordKeyMismatch)
    ));
}

fn spend(id: u8, tx: u8, sig: u8) -> SignedSpend {
    let dbc_id = vec![id; 48];
    let spent_tx_hash = vec![tx; 32];
    let mut spend_bytes = dbc_id.clone();
    spend_bytes.extend(&spent_tx_hash);
    SignedSpend {
        dbc_id,
        spent_tx: DbcTransaction {
            inputs: vec![],
            outputs: vec![],
            fee: FeeOutput { id: vec![0; 32], token: 0, root_hash: vec![0; 32] },
        },
        spent_tx_hash,
        spend_bytes,
        derived_key_sig: vec![sig; 96],
        parent_ids: vec![],
    }
}

#[test]
fn spend_list_bounds_and_coherence() {
    let store = LocalStore::new();
    assert!(matches!(
        plan_spends(&store, vec![spend(1, 1, 1), spend(1, 2, 2), spend(1, 3, 3)]),
        Err(Error::MaxNumberOfSpendsExceeded)
    ));
    assert!(matches!(
        plan_spends(&store, vec![]),
        Err(Error::SpendNotStored(SpendNotStoredReason::NotProvided))
    ));
    assert!(matches!(
        plan_spends(&store, vec![spend(1, 1, 1), spend(2, 1, 1)]),
        Err(Error::SpendNotStored(SpendNotStoredReason::DbcIdMismatch))
    ));
    assert!(matches!(plan_spends(&store, vec![spend(1, 1, 1)]), Ok(SpendPlan::CheckSingle(s)) if s.derived_key_sig == vec![1u8; 96]));
}

#[test]
fn double_spend_is_stored_then_reported() {
    let mut store = LocalStore::new();
    let plan = plan_spends(&store, vec![spend(1, 1, 9), spend(1, 2, 4)]).unwrap();
    let spends = match plan {
        SpendPlan::Store(s) => s,
        _ => panic!("a double spend is stored directly"),
    };
    assert_eq!(spends.len(), 2);
    match store_spends(&mut store, spends) {
        Err(Error::DoubleSpendAttempt(w1, w2)) => {
            assert_eq!(w1.derived_key_sig, vec![4u8; 96]);
            assert_eq!(w2.derived_key_sig, vec![9u8; 96]);
        },
        _ => panic!("expected a double spend"),
    }
    let key = XorName::from_content(&[1u8; 48]).0.to_vec();
    assert!(matches!(store.get(&key), Some(RecordValue::DbcSpend(s)) if s.len() == 2));
}

#[test]
fn repeated_spend_is_already_present() {
    let mut store = LocalStore::new();
    assert!(matches!(store_spends(&mut store, vec![spend(1, 1, 1)]), Ok(CmdOk::StoredSuccessfully)));
    assert!(matches!(plan_spends(&store, vec![spend(1, 1, 1)]), Ok(SpendPlan::AlreadyPresent)));
    // a new witness for the same DBC joins the local one, without network checks
    match plan_spends(&store, vec![spend(1, 2, 0)]) {
        Ok(SpendPlan::Store(s)) => {
            assert_eq!(s.len(), 2);
            assert_eq!(s[0].derived_key_sig, vec![0u8; 96]);
        },
        _ => panic!("expected the union to be stored"),
    }
}

#[test]
fn spends_over_another_kind_are_refused() {
    let mut store = LocalStore::new();
    let s = spend(1, 1, 1);
    let addr = XorName::from_content(&s.dbc_id).0.to_vec();
    let c = ChunkWithPayment { chunk: Chunk { address: addr, value: vec![1] }, payment: None };
    assert!(validate_and_store_chunk(&mut store, c, &vec![]).is_ok());
    assert!(matches!(
        plan_spends(&store, vec![s]),
        Err(Error::RecordKindMismatch(RecordKind::DbcSpend))
    ));
}

fn register(sk: &sn_dbc::blsttc::SecretKey) -> sn_registers::SignedRegister {
    register_with_tag(sk, 7)
}

fn register_with_tag(sk: &sn_dbc::blsttc::SecretKey, tag: u64) -> sn_registers::SignedRegister {
    sn_registers::Register::new(sk.public_key(), XorName::from_content(b"reg"), tag, sn_registers::Permissions::default())
        .into_signed(sk)
        .unwrap()
}

#[test]
fn register_is_stored_then_merged() {
    let sk = sn_dbc::blsttc::SecretKey::random();
    let mut store = LocalStore::new();
    let entry = RegisterEntry::new(register(&sk));
    let name = entry.name().clone();
    assert_eq!(name, XorName::from_content(b"reg").0.to_vec());
    assert!(entry.verify());
    assert!(matches!(validate_and_store_register(&mut store, entry), Ok(CmdOk::StoredSuccessfully)));
    assert!(store.contains_key(&name));
    let again = RegisterEntry::new(register(&sk));
    assert!(matches!(validate_and_store_register(&mut store, again), Ok(CmdOk::DataAlreadyPresent)));
    // same name, another base register: no merge
    let other_base = RegisterEntry::new(register_with_tag(&sk, 8));
    assert_eq!(other_base.name(), &name);
    assert!(matches!(
        validate_and_store_register(&mut store, other_base),
        Err(Error::RegisterMergeFailed(n)) if n == name
    ));
    let local = RegisterEntry::new(register(&sk));
    let merged = local.merge(&RegisterEntry::new(register(&sk))).unwrap();
    assert!(merged.same_state(&local));
    assert!(local.merge(&RegisterEntry::new(register_with_tag(&sk, 8))).is_none());
}

#[test]
fn forged_register_is_refused() {
    let sk = sn_dbc::blsttc::SecretKey::random();
    let other = sn_dbc::blsttc::SecretKey::random();
    let forged = sn_registers::SignedRegister::new(
        sn_registers::Register::new(sk.public_key(), XorName::from_content(b"reg"), 7, sn_registers::Permissions::default()),
        other.sign(b"not the register"),
    );
    let mut store = LocalStore::new();
    let entry = RegisterEntry::new(forged);
    assert!(!entry.verify());
    assert!(matches!(validate_and_store_register(&mut store, entry), Err(Error::InvalidRegister(_))));
    assert!(!store.contains_key(&XorName::from_content(b"reg").0.to_vec()));
}

fn rec(key: &[u8], kind: RecordKind) -> Record {
    Record { key: key.to_vec(), value: try_serialize_record(&[7, 7], kind) }
}

#[test]
fn inbound_record_header_must_name_its_kind() {
    let mut store = LocalStore::new();
    let c = chunk(b"headed", None);
    let key = c.chunk.address.clone();
    assert!(matches!(
        validate_and_store_record(&mut store, &rec(&key, RecordKind::Register), RecordValue::Chunk(c.clone())),
        Err(Error::RecordKindMismatch(RecordKind::Register))
    ));
    let headless = Record { key: key.clone(), value: vec![RECORD_VERSION] };
    assert!(matches!(
        validate_and_store_record(&mut store, &headless, RecordValue::Chunk(c)),
        Err(Error::RecordHeaderParsingFailed)
    ));
    assert!(!store.contains_key(&key));
}

#[test]
fn inbound_records_are_dispatched_by_kind() {
    let mut store = LocalStore::new();
    let c = chunk(b"dispatched", None);
    let key = c.chunk.address.clone();
    assert!(matches!(
        validate_and_store_record(&mut store, &rec(&[0; 32], RecordKind::Chunk), RecordValue::Chunk(c.clone())),
        Err(Error::RecordKeyMismatch)
    ));
    assert!(!store.contains_key(&key));
    assert!(matches!(
        validate_and_store_record(&mut store, &rec(&key, RecordKind::Chunk), RecordValue::Chunk(c.clone())),
        Ok(Admission::Done(CmdOk::StoredSuccessfully))
    ));
    assert!(matches!(
        validate_and_store_record(&mut store, &rec(&key, RecordKind::Chunk), RecordValue::Chunk(c)),
        Ok(Admission::Done(CmdOk::DataAlreadyPresent))
    ));
    let proof = PaymentProof { spent_ids: vec![vec![1; 48]], audit_trail: vec![], path: vec![] };
    let paid = chunk(b"paid", Some(proof));
    let paid_key = paid.chunk.address.clone();
    assert!(matches!(
        validate_and_store_record(&mut store, &rec(&paid_key, RecordKind::Chunk), RecordValue::Chunk(paid)),
        Ok(Admission::ChunkPayment(_))
    ));
    let s = spend(3, 1, 1);
    let spend_key = XorName::from_content(&s.dbc_id).0.to_vec();
    assert!(matches!(
        validate_and_store_record(&mut store, &rec(&spend_key, RecordKind::DbcSpend), RecordValue::DbcSpend(vec![s])),
        Ok(Admission::SpendCheck(_))
    ));
    assert!(matches!(
        validate_and_store_record(
            &mut store,
            &rec(&spend_key, RecordKind::DbcSpend),
            RecordValue::DbcSpend(vec![spend(3, 1, 1), spend(3, 2, 2)])
        ),
        Err(Error::DoubleSpendAttempt(_, _))
    ));
    assert!(store.contains_key(&spend_key));
}
