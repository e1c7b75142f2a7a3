//! Signed registers: conflict-free replicated registers whose signature
//! checks and merges `sn_registers` performs. A signed register is a base
//! register signed by its owner, together with the set of operations applied
//! to it; merging two registers of one base unites their operations.
use vstd::prelude::*;
use crate::dbc::copy_bytes;
use crate::names::NAME_LEN;

verus! {

#[verifier::external_type_specification]
#[verifier::external_body]
pub struct ExSignedRegister(sn_registers::SignedRegister);

/// The operations a signed register holds, each by a value that identifies it.
pub uninterp spec fn register_ops(r: sn_registers::SignedRegister) -> Set<Seq<u8>>;

/// A value that identifies the base register of a signed register: two
/// registers have the same one exactly when their base registers are equal.
pub uninterp spec fn register_base(r: sn_registers::SignedRegister) -> Seq<u8>;

/// A value that identifies the owner's signature of a signed register.
pub uninterp spec fn register_signature(r: sn_registers::SignedRegister) -> Seq<u8>;

/// Relies on `sn_registers::SignedRegister::address`: the 32-byte name of the
/// register's address.
#[verifier::external_body]
fn register_address_name(register: &sn_registers::SignedRegister) -> (r: Vec<u8>)
    ensures
        r@.len() == NAME_LEN,
{
    register.address().name().0.to_vec()
}

/// Relies on `sn_registers::SignedRegister::verify`: whether the owner's
/// signature and every operation verify.
#[verifier::external_body]
fn register_verify(register: &sn_registers::SignedRegister) -> bool {
    register.verify().is_ok()
}

/// Relies on `sn_registers::SignedRegister::merge`: `incoming` merged into a
/// copy of `local`. It fails exactly when their base registers differ; else
/// the copy keeps `local`'s base and signature, and gains `incoming`'s operations.
#[verifier::external_body]
fn register_merge(
    local: &sn_registers::SignedRegister,
    incoming: &sn_registers::SignedRegister,
) -> (r: Option<sn_registers::SignedRegister>)
    ensures
        r is Some <==> register_base(*local) == register_base(*incoming),
        r matches Some(m) ==> {
            &&& register_base(m) == register_base(*local)
            &&& register_signature(m) == register_signature(*local)
            &&& register_ops(m) == register_ops(*local).union(register_ops(*incoming))
        },
{
    let mut merged = local.clone();
    match merged.merge(incoming.clone()) {
        Ok(()) => Some(merged),
        Err(_) => None,
    }
}

/// Relies on `PartialEq` of `sn_registers::SignedRegister`, derived: equal
/// base registers, signatures and sets of operations.
#[verifier::external_body]
fn register_eq(a: &sn_registers::SignedRegister, b: &sn_registers::SignedRegister) -> (r: bool)
    ensures
        r == (register_base(*a) == register_base(*b) && register_signature(*a)
            == register_signature(*b) && register_ops(*a) == register_ops(*b)),
{
    a == b
}

/// What a register holds: its base, the owner's signature and its operations.
pub struct RegisterState {
    pub base: Seq<u8>,
    pub signature: Seq<u8>,
    pub ops: Set<Seq<u8>>,
}

/// The state of a signed register of `sn_registers`.
pub open spec fn state_of(r: sn_registers::SignedRegister) -> RegisterState {
    RegisterState { base: register_base(r), signature: register_signature(r), ops: register_ops(r) }
}

/// Merging `b` into `a`: possible only for one base; `a`'s base and signature
/// stay, and the operations of both are kept.
pub open spec fn merge_state(a: RegisterState, b: RegisterState) -> Option<RegisterState> {
    if a.base == b.base {
        Some(RegisterState { base: a.base, signature: a.signature, ops: a.ops.union(b.ops) })
    } else {
        None
    }
}

/// Merging is commutative for registers of one base and signature.
pub proof fn lemma_merge_commutative(a: RegisterState, b: RegisterState)
    requires
        a.base == b.base,
        a.signature == b.signature,
    ensures
        merge_state(a, b) == merge_state(b, a),
{
    assert(a.ops.union(b.ops) =~= b.ops.union(a.ops));
}

/// Merging is associative for registers of one base.
pub proof fn lemma_merge_associative(a: RegisterState, b: RegisterState, c: RegisterState)
    requires
        a.base == b.base,
        b.base == c.base,
    ensures
        merge_state(merge_state(a, b).unwrap(), c) == merge_state(a, merge_state(b, c).unwrap()),
{
    assert(a.ops.union(b.ops).union(c.ops) =~= a.ops.union(b.ops.union(c.ops)));
}

/// Merging a register into itself, or merging the same register again,
/// changes nothing.
pub proof fn lemma_merge_idempotent(a: RegisterState, b: RegisterState)
    requires
        a.base == b.base,
    ensures
        merge_state(a, a) == Some(a),
        merge_state(merge_state(a, b).unwrap(), b) == merge_state(a, b),
{
    assert(a.ops.union(a.ops) =~= a.ops);
    assert(a.ops.union(b.ops).union(b.ops) =~= a.ops.union(b.ops));
}

/// A signed register together with the name of its address and whether its
/// signatures verified.
pub struct RegisterEntry {
    name: Vec<u8>,
    valid: bool,
    inner: sn_registers::SignedRegister,
}

impl RegisterEntry {
    /// The name of the register's address, which keys it in the store.
    pub closed spec fn name_view(&self) -> Seq<u8> {
        self.name@
    }

    /// Whether the register's signatures verified.
    pub closed spec fn valid(&self) -> bool {
        self.valid
    }

    /// What the register holds.
    pub closed spec fn state(&self) -> RegisterState {
        state_of(self.inner)
    }

    /// Wraps a register of `sn_registers`, checking its signatures once.
    pub fn new(inner: sn_registers::SignedRegister) -> (r: RegisterEntry)
        ensures
            r.name_view().len() == NAME_LEN,
            r.state() == state_of(inner),
    {
        let name = register_address_name(&inner);
        let valid = register_verify(&inner);
        RegisterEntry { name, valid, inner }
    }

    /// The name of the register's address.
    pub fn name(&self) -> (r: &Vec<u8>)
        ensures
            r@ == self.name_view(),
    {
        &self.name
    }

    /// The register of `sn_registers`.
    pub fn inner(&self) -> &sn_registers::SignedRegister {
        &self.inner
    }

    /// Whether the register's signatures verify.
    pub fn verify(&self) -> (r: bool)
        ensures
            r == self.valid(),
    {
        self.valid
    }

    /// `incoming` merged into this register, when both have one base.
    pub fn merge(&self, incoming: &RegisterEntry) -> (r: Option<RegisterEntry>)
        ensures
            match merge_state(self.state(), incoming.state()) {
                None => r is None,
                Some(s) => r matches Some(m) && m.state() == s && m.name_view() == self.name_view(),
            },
    {
        match register_merge(&self.inner, &incoming.inner) {
            Some(inner) => {
                let valid = register_verify(&inner);
                let r = RegisterEntry { name: copy_bytes(self.name.as_slice()), valid, inner };
                assert(r.state().ops =~= self.state().ops.union(incoming.state().ops));
                Some(r)
            },
            None => None,
        }
    }

    /// Whether both hold the same register.
    pub fn same_state(&self, other: &RegisterEntry) -> (r: bool)
        ensures
            r == (self.state() == other.state()),
    {
        register_eq(&self.inner, &other.inner)
    }
}

} // verus!
