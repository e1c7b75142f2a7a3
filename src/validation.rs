//! Validation of inbound records before they are admitted to the local store.
use vstd::prelude::*;
use crate::aggregate::{aggregate, aggregate_spends, lemma_aggregate_nonempty, MAX_SIGNED_SPENDS};
use crate::bytes::bytes_eq;
use crate::codec::{header_of, Record, RecordHeader, RecordKind};
use crate::dbc::{copy_bytes, same_spend, spend_authentic, spend_views, SignedSpend, SpendView};
use crate::error::{Error, SpendNotStoredReason};
use crate::names::{content_name, NAME_LEN};
use crate::payment::{
    chunk_payment_validation, fee_output_id_valid, payment_validation, verify_fee_output_id,
    witnesses, FetchedSpends,
};
use crate::register::{merge_state, RegisterEntry, RegisterState};
use crate::store::{dbc_address, derived_key, kind_of, ChunkWithPayment, LocalStore, RecordValue};

verus! {

/// How an admitted record was handled.
#[derive(Clone, Copy, Debug, PartialEq, Eq, Structural)]
pub enum CmdOk {
    StoredSuccessfully,
    DataAlreadyPresent,
}

/// `new` is `old` with `v` stored under the key it derives.
pub open spec fn stored_after(new: LocalStore, old: LocalStore, v: RecordValue) -> bool {
    forall|k: Seq<u8>| #[trigger]
        new.lookup(k) == if k == derived_key(v) {
            Some(v)
        } else {
            old.lookup(k)
        }
}

/// The outcome without what was done on success.
pub open spec fn unit_of(r: Result<CmdOk, Error>) -> Result<(), Error> {
    match r {
        Ok(_) => Ok(()),
        Err(e) => Err(e),
    }
}

/// Whether a record key is the one its value derives; for spends, every spend
/// must be of a DBC at that address.
pub open spec fn key_matches(key: Seq<u8>, v: RecordValue) -> bool {
    match v {
        RecordValue::Chunk(c) => key == c.chunk.address@,
        RecordValue::DbcSpend(s) => forall|i: int|
            0 <= i < s@.len() ==> dbc_address(#[trigger] s@[i].dbc_id@) == key,
        RecordValue::Register(r) => key == r.name_view(),
    }
}

/// Checks that the key an inbound record came under is the one its value derives.
pub fn check_record_key(key: &[u8], value: &RecordValue) -> (r: Result<(), Error>)
    ensures
        match r {
            Ok(_) => key_matches(key@, *value),
            Err(e) => !key_matches(key@, *value) && e is RecordKeyMismatch,
        },
{
    let ok = match value {
        RecordValue::Chunk(c) => bytes_eq(key, c.chunk.address.as_slice()),
        RecordValue::DbcSpend(s) => spends_at_key(s, key),
        RecordValue::Register(reg) => bytes_eq(key, reg.name().as_slice()),
    };
    if ok {
        Ok(())
    } else {
        Err(Error::RecordKeyMismatch)
    }
}

fn spends_at_key(s: &Vec<SignedSpend>, key: &[u8]) -> (r: bool)
    ensures
        r == forall|i: int| 0 <= i < s@.len() ==> dbc_address(#[trigger] s@[i].dbc_id@) == key@,
{
    let mut i: usize = 0;
    while i < s.len()
        invariant
            i <= s@.len(),
            forall|j: int| 0 <= j < i ==> dbc_address(#[trigger] s@[j].dbc_id@) == key@,
        decreases s@.len() - i,
    {
        let addr = content_name(s[i].dbc_id.as_slice());
        if !bytes_eq(addr.as_slice(), key) {
            return false;
        }
        i = i + 1;
    }
    true
}

/// Validates a chunk and stores it. A chunk already held is left as it is,
/// without looking at its payment; otherwise its payment, if any, must be
/// valid against `fetched`, the witnesses the network gave for each DBC the
/// payment spent.
pub fn validate_and_store_chunk(
    store: &mut LocalStore,
    chunk_with_payment: ChunkWithPayment,
    fetched: &Vec<FetchedSpends>,
) -> (r: Result<CmdOk, Error>)
    requires
        old(store).wf(),
        chunk_with_payment.chunk.address@.len() == NAME_LEN,
        old(store).lookup(chunk_with_payment.chunk.address@) is None
            && chunk_with_payment.payment is Some ==> fetched@.len()
            == chunk_with_payment.payment->Some_0.spent_ids@.len(),
    ensures
        final(store).wf(),
        old(store).lookup(chunk_with_payment.chunk.address@) is Some ==> r matches Ok(
            CmdOk::DataAlreadyPresent,
        ),
        old(store).lookup(chunk_with_payment.chunk.address@) is None ==> {
            &&& (chunk_with_payment.payment matches Some(p) ==> payment_validation(
                unit_of(r),
                chunk_with_payment.chunk.address@,
                p,
                fetched@,
            ))
            &&& (chunk_with_payment.payment is None ==> r is Ok)
            &&& (r is Ok ==> (r matches Ok(CmdOk::StoredSuccessfully) && stored_after(
                *final(store),
                *old(store),
                RecordValue::Chunk(chunk_with_payment),
            )))
        },
        (r is Err || (r matches Ok(CmdOk::DataAlreadyPresent))) ==> *final(store) == *old(store),
{
    let name = chunk_with_payment.chunk.address.as_slice();
    if store.contains_key(name) {
        return Ok(CmdOk::DataAlreadyPresent);
    }
    if let Some(payment) = &chunk_with_payment.payment {
        chunk_payment_validation(name, payment, fetched)?;
    }
    store.put(RecordValue::Chunk(chunk_with_payment));
    Ok(CmdOk::StoredSuccessfully)
}

/// What validating the register `reg` against the store `old` gives, the
/// store becoming `new`: an invalid register is refused; a new one is stored
/// as it is; one already held is merged into the local copy, which must have
/// the same base, and the merge is stored unless it equals the local copy.
pub open spec fn register_outcome(
    r: Result<CmdOk, Error>,
    reg: RegisterEntry,
    old: LocalStore,
    new: LocalStore,
) -> bool {
    let key = reg.name_view();
    if !reg.valid() {
        r matches Err(Error::InvalidRegister(n)) && n@ == key && new == old
    } else {
        match old.lookup(key) {
            None => r matches Ok(CmdOk::StoredSuccessfully) && stored_after(
                new,
                old,
                RecordValue::Register(reg),
            ),
            Some(RecordValue::Register(local)) => match merge_state(local.state(), reg.state()) {
                None => r matches Err(Error::RegisterMergeFailed(n)) && n@ == key && new == old,
                Some(m) => if m == local.state() {
                    r matches Ok(CmdOk::DataAlreadyPresent) && new == old
                } else {
                    r matches Ok(CmdOk::StoredSuccessfully) && exists|e: RegisterEntry|
                        e.name_view() == key && e.state() == m && stored_after(
                            new,
                            old,
                            RecordValue::Register(e),
                        )
                },
            },
            Some(_) => r matches Err(Error::RecordKindMismatch(RecordKind::Register)) && new
                == old,
        }
    }
}

/// Validates a register and stores it: an invalid one is refused; a new one
/// is stored as it is; one already held is merged into the local copy, and
/// the merge is stored unless it changes nothing.
pub fn validate_and_store_register(store: &mut LocalStore, register: RegisterEntry) -> (r: Result<
    CmdOk,
    Error,
>)
    requires
        old(store).wf(),
    ensures
        final(store).wf(),
        register_outcome(r, register, *old(store), *final(store)),
{
    if !register.verify() {
        return Err(Error::InvalidRegister(copy_bytes(register.name().as_slice())));
    }
    let merged = match store.get(register.name().as_slice()) {
        None => {
            store.put(RecordValue::Register(register));
            return Ok(CmdOk::StoredSuccessfully);
        },
        Some(RecordValue::Register(local)) => {
            proof {
                crate::store::lemma_admitted_key_derived(*store, register.name_view());
            }
            match local.merge(&register) {
                None => {
                    return Err(Error::RegisterMergeFailed(copy_bytes(register.name().as_slice())));
                },
                Some(merged) => {
                    if merged.same_state(local) {
                        return Ok(CmdOk::DataAlreadyPresent);
                    }
                    merged
                },
            }
        },
        Some(_) => {
            return Err(Error::RecordKindMismatch(RecordKind::Register));
        },
    };
    let ghost m = merged;
    store.put(RecordValue::Register(merged));
    assert(m.name_view() == register.name_view() && m.state() == m.state() && stored_after(
        *store,
        *old(store),
        RecordValue::Register(m),
    ));
    Ok(CmdOk::StoredSuccessfully)
}

/// What to do with inbound spends once they have been checked against the
/// local copy.
pub enum SpendPlan {
    /// Every spend is already held.
    AlreadyPresent,
    /// A single spend, to verify with its parents and the network's witnesses.
    CheckSingle(SignedSpend),
    /// A double spend already: store these aggregated spends as they are.
    Store(Vec<SignedSpend>),
}

/// Whether all spends are of the DBC `d`.
pub open spec fn all_of_dbc(v: Seq<SpendView>, d: Seq<u8>) -> bool {
    forall|i: int| 0 <= i < v.len() ==> (#[trigger] v[i]).dbc_id == d
}

/// The plan for the inbound spends `v`, which are all of one DBC, given what
/// the store holds at its address.
pub open spec fn spend_plan(r: SpendPlan, v: Seq<SpendView>, local: Option<RecordValue>) -> bool {
    let d = v[0].dbc_id;
    match local {
        Some(RecordValue::DbcSpend(l)) => {
            let lv = spend_views(l@);
            if forall|i: int| 0 <= i < v.len() ==> lv.contains(#[trigger] v[i]) {
                r is AlreadyPresent
            } else if lv.len() == 0 && (v.len() == 1 || v[0] == v[1]) {
                r matches SpendPlan::CheckSingle(s) && s@ == v[0]
            } else {
                r matches SpendPlan::Store(s) && spend_views(s@) == aggregate(lv + v, d)
            }
        },
        _ => if v.len() == 1 {
            r matches SpendPlan::CheckSingle(s) && s@ == v[0]
        } else {
            r matches SpendPlan::Store(s) && spend_views(s@) == aggregate(v, d)
        },
    }
}

/// What checking the inbound spends `v` against `store` gives: at most two,
/// all of one DBC, whose address holds no other kind of record.
pub open spec fn planned(r: Result<SpendPlan, Error>, v: Seq<SpendView>, store: LocalStore) -> bool {
    if v.len() > MAX_SIGNED_SPENDS {
        r matches Err(Error::MaxNumberOfSpendsExceeded)
    } else if v.len() == 0 {
        r matches Err(Error::SpendNotStored(SpendNotStoredReason::NotProvided))
    } else if !all_of_dbc(v, v[0].dbc_id) {
        r matches Err(Error::SpendNotStored(SpendNotStoredReason::DbcIdMismatch))
    } else {
        let local = store.lookup(dbc_address(v[0].dbc_id));
        if local matches Some(l) && !(l is DbcSpend) {
            r matches Err(Error::RecordKindMismatch(RecordKind::DbcSpend))
        } else {
            r matches Ok(p) && spend_plan(p, v, local)
        }
    }
}

fn contains_spend(spends: &Vec<SignedSpend>, s: &SignedSpend) -> (r: bool)
    ensures
        r == spend_views(spends@).contains(s@),
{
    let ghost v = spend_views(spends@);
    let mut i: usize = 0;
    while i < spends.len()
        invariant
            v == spend_views(spends@),
            i <= spends@.len(),
            forall|j: int| 0 <= j < i ==> v[j] != s@,
        decreases spends@.len() - i,
    {
        if same_spend(&spends[i], s) {
            assert(v[i as int] == s@);
            return true;
        }
        i = i + 1;
    }
    false
}

/// Checks inbound spends for a DBC against the local copy and decides how
/// they go on. There may be at most two, all of one DBC; spends of a DBC
/// whose address holds another kind of record are refused.
pub fn plan_spends(store: &LocalStore, signed_spends: Vec<SignedSpend>) -> (r: Result<
    SpendPlan,
    Error,
>)
    requires
        store.wf(),
    ensures
        planned(r, spend_views(signed_spends@), *store),
{
    let ghost v = spend_views(signed_spends@);
    if signed_spends.len() > MAX_SIGNED_SPENDS {
        return Err(Error::MaxNumberOfSpendsExceeded);
    }
    if signed_spends.len() == 0 {
        return Err(Error::SpendNotStored(SpendNotStoredReason::NotProvided));
    }
    let mut i: usize = 1;
    while i < signed_spends.len()
        invariant
            v == spend_views(signed_spends@),
            1 <= i <= signed_spends@.len(),
            signed_spends@.len() <= MAX_SIGNED_SPENDS,
            forall|j: int| 0 <= j < i ==> (#[trigger] v[j]).dbc_id == v[0].dbc_id,
        decreases signed_spends@.len() - i,
    {
        if !bytes_eq(signed_spends[i].dbc_id.as_slice(), signed_spends[0].dbc_id.as_slice()) {
            assert(v[i as int].dbc_id != v[0].dbc_id);
            assert(!all_of_dbc(v, v[0].dbc_id));
            return Err(Error::SpendNotStored(SpendNotStoredReason::DbcIdMismatch));
        }
        i = i + 1;
    }
    let dbc_id = copy_bytes(signed_spends[0].dbc_id.as_slice());
    let key = content_name(dbc_id.as_slice());
    let mut spends = signed_spends;
    match store.get(key.as_slice()) {
        None => {
            if spends.len() == 1 {
                let s = spends.remove(0);
                Ok(SpendPlan::CheckSingle(s))
            } else {
                Ok(SpendPlan::Store(aggregate_spends(spends, &dbc_id)))
            }
        },
        Some(RecordValue::DbcSpend(local)) => {
            let ghost lv = spend_views(local@);
            let new0 = !contains_spend(local, &spends[0]);
            let new1 = spends.len() == 2 && !contains_spend(local, &spends[1]);
            if !new0 && !new1 {
                assert forall|i: int| 0 <= i < v.len() implies lv.contains(#[trigger] v[i]) by {
                    if i == 1 {
                        assert(v[1] == spends@[1]@);
                    }
                }
                return Ok(SpendPlan::AlreadyPresent);
            }
            if local.len() == 0 && (spends.len() == 1 || same_spend(&spends[0], &spends[1])) {
                let s = spends.remove(0);
                return Ok(SpendPlan::CheckSingle(s));
            }
            let mut all: Vec<SignedSpend> = Vec::new();
            let mut j: usize = 0;
            while j < local.len()
                invariant
                    lv == spend_views(local@),
                    j <= local@.len(),
                    all@.len() == j,
                    forall|k: int| 0 <= k < j ==> (#[trigger] all@[k])@ == lv[k],
                decreases local@.len() - j,
            {
                all.push(local[j].duplicate());
                j = j + 1;
            }
            assert(spend_views(all@) =~= lv);
            all.append(&mut spends);
            assert(spend_views(all@) =~= lv + v);
            Ok(SpendPlan::Store(aggregate_spends(all, &dbc_id)))
        },
        Some(_) => Err(Error::RecordKindMismatch(RecordKind::DbcSpend)),
    }
}

/// Whether the parents of `s` back it: for each DBC its creating transaction
/// spent, the network gave exactly one witness, of that DBC, authentic, whose
/// transaction created `s`'s DBC.
pub open spec fn parents_valid(s: SignedSpend, parents: Seq<FetchedSpends>) -> bool {
    &&& parents.len() == s.parent_ids@.len()
    &&& forall|i: int| 0 <= i < parents.len() ==> #[trigger] parent_backs(s, parents, i)
}

/// Whether the network gave exactly one witness for the `i`-th parent of `s`,
/// of that parent, authentic, whose transaction created `s`'s DBC.
pub open spec fn parent_backs(s: SignedSpend, parents: Seq<FetchedSpends>, i: int) -> bool {
    let w = witnesses(parents, i);
    &&& parents[i] is Some
    &&& w.len() == 1
    &&& w[0].dbc_id@ == s.parent_ids@[i]@
    &&& spend_authentic(w[0]@)
    &&& w[0].spent_tx.output_ids().contains(s.dbc_id@)
}

/// Checks the parents of a spend against the witnesses the network gave for
/// each of them.
pub fn check_parent_spends(spend: &SignedSpend, parents: &Vec<FetchedSpends>) -> (r: bool)
    ensures
        r ==> parents_valid(*spend, parents@),
        !parents_valid(*spend, parents@) ==> !r,
{
    if parents.len() != spend.parent_ids.len() {
        return false;
    }
    let mut i: usize = 0;
    while i < parents.len()
        invariant
            parents@.len() == spend.parent_ids@.len(),
            i <= parents@.len(),
            forall|j: int| 0 <= j < i ==> #[trigger] parent_backs(*spend, parents@, j),
        decreases parents@.len() - i,
    {
        let ghost w = witnesses(parents@, i as int);
        match &parents[i] {
            None => {
                assert(!parent_backs(*spend, parents@, i as int));
                return false;
            },
            Some(ws) => {
                assert(w == ws@);
                if ws.len() != 1 {
                    assert(!parent_backs(*spend, parents@, i as int));
                    return false;
                }
                let p = &ws[0];
                if !bytes_eq(p.dbc_id.as_slice(), spend.parent_ids[i].as_slice()) {
                    assert(!parent_backs(*spend, parents@, i as int));
                    return false;
                }
                if !p.verify() || !p.tx_matches() {
                    return false;
                }
                if !p.spent_tx.has_output(&spend.dbc_id) {
                    assert(!parent_backs(*spend, parents@, i as int));
                    return false;
                }
                assert(parent_backs(*spend, parents@, i as int));
            },
        }
        i = i + 1;
    }
    true
}

/// Verifies a single spend and aggregates it with the witnesses that the
/// network holds for its DBC: its signature, its fee output id and its parents
/// must all be valid.
pub fn check_single_spend(
    spend: SignedSpend,
    parents: &Vec<FetchedSpends>,
    peer_spends: Vec<SignedSpend>,
) -> (r: Result<Vec<SignedSpend>, Error>)
    ensures
        !spend_authentic(spend@) ==> r matches Err(Error::InvalidSpendSignature),
        spend_authentic(spend@) && !fee_output_id_valid(spend.spent_tx) ==> (r matches Err(
            Error::InvalidSpendSignature,
        ) || (r matches Err(Error::PaymentProofInvalidFeeOutput(id)) && id@
            == spend.spent_tx.fee.id@)),
        spend_authentic(spend@) && fee_output_id_valid(spend.spent_tx) && !parents_valid(
            spend,
            parents@,
        ) ==> (r matches Err(Error::InvalidSpendSignature) || r matches Err(
            Error::InvalidSpendParents,
        )),
        r matches Ok(s) ==> {
            &&& spend_authentic(spend@)
            &&& fee_output_id_valid(spend.spent_tx)
            &&& parents_valid(spend, parents@)
            &&& spend_views(s@) == aggregate(spend_views(peer_spends@).push(spend@), spend.dbc_id@)
        },
{
    if !spend.verify() || !spend.tx_matches() {
        return Err(Error::InvalidSpendSignature);
    }
    verify_fee_output_id(&spend.spent_tx)?;
    if !check_parent_spends(&spend, parents) {
        return Err(Error::InvalidSpendParents);
    }
    let dbc_id = copy_bytes(spend.dbc_id.as_slice());
    let ghost sv = spend@;
    let mut spends = peer_spends;
    spends.push(spend);
    assert(spend_views(spends@) =~= spend_views(peer_spends@).push(sv));
    Ok(aggregate_spends(spends, &dbc_id))
}

/// Stores aggregated spends. Two of them prove a double spend: they are stored
/// all the same, and then handed back in the error so the evidence can be
/// passed on.
pub fn store_spends(store: &mut LocalStore, spends: Vec<SignedSpend>) -> (r: Result<CmdOk, Error>)
    requires
        old(store).wf(),
        spends@.len() > 0,
    ensures
        final(store).wf(),
        stored_after(*final(store), *old(store), RecordValue::DbcSpend(spends)),
        spends@.len() == 1 ==> r matches Ok(CmdOk::StoredSuccessfully),
        spends@.len() > 1 ==> (r matches Err(Error::DoubleSpendAttempt(w1, w2)) && w1@
            == spends@[0]@ && w2@ == spends@[1]@),
{
    let evidence = if spends.len() > 1 {
        Some((spends[0].duplicate(), spends[1].duplicate()))
    } else {
        None
    };
    store.put(RecordValue::DbcSpend(spends));
    match evidence {
        Some((w1, w2)) => Err(Error::DoubleSpendAttempt(Box::new(w1), Box::new(w2))),
        None => Ok(CmdOk::StoredSuccessfully),
    }
}

} // verus!

verus! {

/// The kind of a record value.
pub fn record_kind(value: &RecordValue) -> (r: RecordKind)
    ensures
        r == kind_of(*value),
{
    match value {
        RecordValue::Chunk(_) => RecordKind::Chunk,
        RecordValue::DbcSpend(_) => RecordKind::DbcSpend,
        RecordValue::Register(_) => RecordKind::Register,
    }
}

/// The outcome of a record that was handled.
pub open spec fn done_of(r: Result<Admission, Error>) -> Result<CmdOk, Error> {
    match r {
        Ok(Admission::Done(c)) => Ok(c),
        Ok(_) => Err(Error::RecordKeyMismatch),
        Err(e) => Err(e),
    }
}

/// How far an inbound record got.
pub enum Admission {
    /// It was handled.
    Done(CmdOk),
    /// A new chunk with a payment: the payment's spends must be fetched and
    /// checked before the chunk is stored.
    ChunkPayment(ChunkWithPayment),
    /// A single new spend: its parents and the network's witnesses must be
    /// fetched and checked before it is stored.
    SpendCheck(SignedSpend),
}

/// What admitting the spends planned as `p` does to the store `old`, giving
/// `new`, and how it ends: a plan that needs the network leaves the store as
/// it is; spends to store are stored, and two of them are reported.
pub open spec fn spend_admission(
    r: Result<Admission, Error>,
    p: Result<SpendPlan, Error>,
    old: LocalStore,
    new: LocalStore,
) -> bool {
    match p {
        Err(e) => r == Err::<Admission, Error>(e) && new == old,
        Ok(SpendPlan::AlreadyPresent) => r matches Ok(Admission::Done(CmdOk::DataAlreadyPresent))
            && new == old,
        Ok(SpendPlan::CheckSingle(x)) => r == Ok::<Admission, Error>(Admission::SpendCheck(x))
            && new == old,
        Ok(SpendPlan::Store(v)) => {
            &&& stored_after(new, old, RecordValue::DbcSpend(v))
            &&& v@.len() == 1 ==> (r matches Ok(Admission::Done(CmdOk::StoredSuccessfully)))
            &&& v@.len() > 1 ==> (r matches Err(Error::DoubleSpendAttempt(w1, w2)) && w1@
                == v@[0]@ && w2@ == v@[1]@)
        },
    }
}

/// Validates an inbound record and stores it, or says which check against
/// the network it still needs. `value` is the record's payload, read as the
/// kind its header names, which must be the kind of `value`. The record's key
/// must be the one the value derives; a chunk already held is left as it is; a register is merged
/// with the local copy; spends are checked against the local copy.
pub fn validate_and_store_record(store: &mut LocalStore, record: &Record, value: RecordValue) -> (r:
    Result<Admission, Error>)
    requires
        old(store).wf(),
        value matches RecordValue::Chunk(c) ==> c.chunk.address@.len() == NAME_LEN,
    ensures
        final(store).wf(),
        header_of(record.value@) is None ==> (r matches Err(Error::RecordHeaderParsingFailed)
            && *final(store) == *old(store)),
        header_of(record.value@) is Some && header_of(record.value@)->Some_0.kind != kind_of(value) ==> (r matches Err(
            Error::RecordKindMismatch(k),
        ) && k == header_of(record.value@)->Some_0.kind && *final(store) == *old(store)),
        header_of(record.value@) is Some && header_of(record.value@)->Some_0.kind == kind_of(value) && !key_matches(
            record.key@,
            value,
        ) ==> (r matches Err(Error::RecordKeyMismatch) && *final(store) == *old(store)),
        header_of(record.value@) is Some && header_of(record.value@)->Some_0.kind == kind_of(value) && key_matches(
            record.key@,
            value,
        ) ==> match value {
            RecordValue::Chunk(c) => if old(store).lookup(c.chunk.address@) is Some {
                r matches Ok(Admission::Done(CmdOk::DataAlreadyPresent)) && *final(store)
                    == *old(store)
            } else if c.payment is None {
                r matches Ok(Admission::Done(CmdOk::StoredSuccessfully)) && stored_after(
                    *final(store),
                    *old(store),
                    RecordValue::Chunk(c),
                )
            } else {
                r == Ok::<Admission, Error>(Admission::ChunkPayment(c)) && *final(store)
                    == *old(store)
            },
            RecordValue::DbcSpend(s) => exists|p: Result<SpendPlan, Error>|
                planned(p, spend_views(s@), *old(store)) && spend_admission(
                    r,
                    p,
                    *old(store),
                    *final(store),
                ),
            RecordValue::Register(reg) => {
                &&& r is Ok ==> (r matches Ok(Admission::Done(_)))
                &&& register_outcome(done_of(r), reg, *old(store), *final(store))
            },
        },
{
    let header = RecordHeader::from_record(record)?;
    let kind = record_kind(&value);
    if header.kind != kind {
        return Err(Error::RecordKindMismatch(header.kind));
    }
    check_record_key(record.key.as_slice(), &value)?;
    match value {
        RecordValue::Chunk(c) => {
            if store.contains_key(c.chunk.address.as_slice()) {
                return Ok(Admission::Done(CmdOk::DataAlreadyPresent));
            }
            if c.payment.is_some() {
                return Ok(Admission::ChunkPayment(c));
            }
            store.put(RecordValue::Chunk(c));
            Ok(Admission::Done(CmdOk::StoredSuccessfully))
        },
        RecordValue::DbcSpend(s) => {
            let ghost v = spend_views(s@);
            let plan = plan_spends(store, s);
            let ghost p = plan;
            match plan {
                Err(e) => Err(e),
                Ok(SpendPlan::AlreadyPresent) => Ok(Admission::Done(CmdOk::DataAlreadyPresent)),
                Ok(SpendPlan::CheckSingle(x)) => Ok(Admission::SpendCheck(x)),
                Ok(SpendPlan::Store(spends)) => {
                    proof {
                        lemma_planned_store_nonempty(p, v, *store);
                    }
                    match store_spends(store, spends) {
                        Ok(ok) => Ok(Admission::Done(ok)),
                        Err(e) => Err(e),
                    }
                },
            }
        },
        RecordValue::Register(reg) => match validate_and_store_register(store, reg) {
            Ok(ok) => Ok(Admission::Done(ok)),
            Err(e) => Err(e),
        },
    }
}

proof fn lemma_planned_store_nonempty(p: Result<SpendPlan, Error>, v: Seq<SpendView>, store: LocalStore)
    requires
        planned(p, v, store),
        p matches Ok(SpendPlan::Store(_)),
    ensures
        p matches Ok(SpendPlan::Store(s)) && s@.len() > 0,
{
    if let Ok(SpendPlan::Store(s)) = p {
        let d = v[0].dbc_id;
        let local = store.lookup(dbc_address(d));
        lemma_aggregate_nonempty(v, d);
        if let Some(RecordValue::DbcSpend(l)) = local {
            let lv = spend_views(l@);
            assert((lv + v)[lv.len() as int] == v[0]);
            lemma_aggregate_nonempty(lv + v, d);
        }
        assert(spend_views(s@).len() == s@.len());
    }
}

} // verus!

verus! {

/// The state of the register stored under `key`, if a register is stored there.
pub open spec fn register_state_at(store: LocalStore, key: Seq<u8>) -> Option<RegisterState> {
    match store.lookup(key) {
        Some(RecordValue::Register(e)) => Some(e.state()),
        _ => None,
    }
}

/// After validating a valid register, the register stored under its name
/// holds the register itself if none was held, else the merge of the local
/// copy with it.
pub proof fn lemma_register_stored_state(
    r: Result<CmdOk, Error>,
    reg: RegisterEntry,
    old: LocalStore,
    new: LocalStore,
)
    requires
        register_outcome(r, reg, old, new),
        reg.valid(),
    ensures
        old.lookup(reg.name_view()) is None ==> register_state_at(new, reg.name_view()) == Some(
            reg.state(),
        ),
        register_state_at(old, reg.name_view()) is Some && merge_state(
            register_state_at(old, reg.name_view())->Some_0,
            reg.state(),
        ) is Some ==> register_state_at(new, reg.name_view()) == merge_state(
            register_state_at(old, reg.name_view())->Some_0,
            reg.state(),
        ),
{
    let key = reg.name_view();
    if let Some(RecordValue::Register(local)) = old.lookup(key) {
        if let Some(m) = merge_state(local.state(), reg.state()) {
            if m != local.state() {
                let e = choose|e: RegisterEntry|
                    e.name_view() == key && e.state() == m && stored_after(
                        new,
                        old,
                        RecordValue::Register(e),
                    );
                assert(new.lookup(key) == Some(RecordValue::Register(e)));
            }
        }
    }
}

/// Registers of one base and signature, submitted in either order to a store
/// that holds none under their name, leave the same register state stored.
pub proof fn lemma_register_order_independent(
    r1: RegisterEntry,
    r2: RegisterEntry,
    start: LocalStore,
    one_then: LocalStore,
    one_then_two: LocalStore,
    two_then: LocalStore,
    two_then_one: LocalStore,
    a: Result<CmdOk, Error>,
    b: Result<CmdOk, Error>,
    c: Result<CmdOk, Error>,
    d: Result<CmdOk, Error>,
)
    requires
        r1.valid(),
        r2.valid(),
        r1.name_view() == r2.name_view(),
        r1.state().base == r2.state().base,
        r1.state().signature == r2.state().signature,
        start.lookup(r1.name_view()) is None,
        register_outcome(a, r1, start, one_then),
        register_outcome(b, r2, one_then, one_then_two),
        register_outcome(c, r2, start, two_then),
        register_outcome(d, r1, two_then, two_then_one),
    ensures
        register_state_at(one_then_two, r1.name_view()) == register_state_at(two_then_one, r1.name_view()),
        register_state_at(one_then_two, r1.name_view()) == merge_state(r1.state(), r2.state()),
{
    lemma_register_stored_state(a, r1, start, one_then);
    lemma_register_stored_state(b, r2, one_then, one_then_two);
    lemma_register_stored_state(c, r2, start, two_then);
    lemma_register_stored_state(d, r1, two_then, two_then_one);
    crate::register::lemma_merge_commutative(r1.state(), r2.state());
}

} // verus!
