//! The node's local record store: each record is kept under the key that its
//! value derives.
use vstd::prelude::*;
use crate::bytes::bytes_eq;
use crate::codec::RecordKind;
use crate::dbc::{copy_bytes, SignedSpend};
use crate::names::{content_name, xor_name_of};
use crate::payment::PaymentProof;
use crate::register::RegisterEntry;

verus! {

/// An immutable chunk of content and the name of its address.
#[derive(Clone, Debug)]
pub struct Chunk {
    pub address: Vec<u8>,
    pub value: Vec<u8>,
}

/// A chunk and, optionally, the proof that its storage was paid for.
#[derive(Clone, Debug)]
pub struct ChunkWithPayment {
    pub chunk: Chunk,
    pub payment: Option<PaymentProof>,
}

/// The value of a record, by kind.
pub enum RecordValue {
    Chunk(ChunkWithPayment),
    DbcSpend(Vec<SignedSpend>),
    Register(RegisterEntry),
}

/// The kind of a record value.
pub open spec fn kind_of(v: RecordValue) -> RecordKind {
    match v {
        RecordValue::Chunk(_) => RecordKind::Chunk,
        RecordValue::DbcSpend(_) => RecordKind::DbcSpend,
        RecordValue::Register(_) => RecordKind::Register,
    }
}

/// The address name of the DBC `dbc_id`, where its spends are stored.
pub open spec fn dbc_address(dbc_id: Seq<u8>) -> Seq<u8> {
    xor_name_of(dbc_id)
}

/// The address name of the DBC `dbc_id`.
pub fn dbc_address_name(dbc_id: &[u8]) -> (r: Vec<u8>)
    ensures
        r@ == dbc_address(dbc_id@),
{
    content_name(dbc_id)
}

/// The key a record value is stored under: a chunk's address, the address of
/// the DBC that the spends spend, a register's address.
pub open spec fn derived_key(v: RecordValue) -> Seq<u8> {
    match v {
        RecordValue::Chunk(c) => c.chunk.address@,
        RecordValue::DbcSpend(s) => if s@.len() > 0 {
            dbc_address(s@[0].dbc_id@)
        } else {
            seq![]
        },
        RecordValue::Register(r) => r.name_view(),
    }
}

/// The key a record value is stored under.
pub fn record_key(v: &RecordValue) -> (r: Vec<u8>)
    ensures
        r@ == derived_key(*v),
{
    match v {
        RecordValue::Chunk(c) => copy_bytes(c.chunk.address.as_slice()),
        RecordValue::DbcSpend(s) => if s.len() > 0 {
            content_name(s[0].dbc_id.as_slice())
        } else {
            Vec::new()
        },
        RecordValue::Register(r) => copy_bytes(r.name().as_slice()),
    }
}

/// The first position of `k` among the first `n` keys, or `-1`.
pub open spec fn find(keys: Seq<Vec<u8>>, k: Seq<u8>, n: int) -> int
    decreases n,
{
    if n <= 0 {
        -1
    } else {
        let f = find(keys, k, n - 1);
        if f >= 0 {
            f
        } else if keys[n - 1]@ == k {
            n - 1
        } else {
            -1
        }
    }
}

proof fn lemma_find(keys: Seq<Vec<u8>>, k: Seq<u8>, n: int)
    requires
        0 <= n <= keys.len(),
    ensures
        -1 <= find(keys, k, n) < n,
        find(keys, k, n) >= 0 ==> keys[find(keys, k, n)]@ == k,
        find(keys, k, n) == -1 ==> forall|j: int| 0 <= j < n ==> keys[j]@ != k,
    decreases n,
{
    if n > 0 {
        lemma_find(keys, k, n - 1);
    }
}

proof fn lemma_find_other_update(keys: Seq<Vec<u8>>, k: Seq<u8>, n: int, i: int, v: Vec<u8>)
    requires
        0 <= i < keys.len(),
        0 <= n <= keys.len(),
        keys[i]@ == v@,
    ensures
        find(keys.update(i, v), k, n) == find(keys, k, n),
    decreases n,
{
    if n > 0 {
        lemma_find_other_update(keys, k, n - 1, i, v);
    }
}

proof fn lemma_find_push(keys: Seq<Vec<u8>>, k: Seq<u8>, n: int, v: Vec<u8>)
    requires
        0 <= n <= keys.len(),
    ensures
        find(keys.push(v), k, n) == find(keys, k, n),
    decreases n,
{
    if n > 0 {
        lemma_find_push(keys, k, n - 1, v);
    }
}

/// The records held locally.
pub struct LocalStore {
    keys: Vec<Vec<u8>>,
    values: Vec<RecordValue>,
}

impl LocalStore {
    /// Keys and values pair up, and each key is the one its value derives.
    pub closed spec fn wf(&self) -> bool {
        &&& self.keys@.len() == self.values@.len()
        &&& forall|i: int|
            0 <= i < self.keys@.len() ==> #[trigger] self.keys@[i]@ == derived_key(
                self.values@[i],
            )
    }

    /// The record stored under `k`, if any.
    pub closed spec fn lookup(&self, k: Seq<u8>) -> Option<RecordValue> {
        let f = find(self.keys@, k, self.keys@.len() as int);
        if f >= 0 {
            Some(self.values@[f])
        } else {
            None
        }
    }

    /// An empty store.
    pub fn new() -> (r: LocalStore)
        ensures
            r.wf(),
            forall|k: Seq<u8>| r.lookup(k) is None,
    {
        LocalStore { keys: Vec::new(), values: Vec::new() }
    }

    fn index_of(&self, key: &[u8]) -> (r: Option<usize>)
        requires
            self.wf(),
        ensures
            match r {
                Some(i) => i as int == find(self.keys@, key@, self.keys@.len() as int),
                None => find(self.keys@, key@, self.keys@.len() as int) == -1,
            },
    {
        let mut i: usize = 0;
        while i < self.keys.len()
            invariant
                self.wf(),
                i <= self.keys@.len(),
                find(self.keys@, key@, i as int) == -1,
            decreases self.keys@.len() - i,
        {
            if bytes_eq(self.keys[i].as_slice(), key) {
                proof {
                    lemma_find_tail(self.keys@, key@, i as int + 1, self.keys@.len() as int);
                }
                return Some(i);
            }
            i = i + 1;
        }
        None
    }

    /// Whether a record is stored under `key`.
    pub fn contains_key(&self, key: &[u8]) -> (r: bool)
        requires
            self.wf(),
        ensures
            r == self.lookup(key@) is Some,
    {
        self.index_of(key).is_some()
    }

    /// The record stored under `key`, if any.
    pub fn get(&self, key: &[u8]) -> (r: Option<&RecordValue>)
        requires
            self.wf(),
        ensures
            match r {
                Some(v) => self.lookup(key@) == Some(*v),
                None => self.lookup(key@) is None,
            },
    {
        proof {
            lemma_find(self.keys@, key@, self.keys@.len() as int);
        }
        match self.index_of(key) {
            Some(i) => Some(&self.values[i]),
            None => None,
        }
    }

    /// Stores `value` under the key it derives, in place of what was there.
    pub fn put(&mut self, value: RecordValue)
        requires
            old(self).wf(),
        ensures
            final(self).wf(),
            forall|k: Seq<u8>| #[trigger]
                final(self).lookup(k) == if k == derived_key(value) {
                    Some(value)
                } else {
                    old(self).lookup(k)
                },
    {
        let key = record_key(&value);
        let ghost old_keys = self.keys@;
        proof {
            lemma_find(old_keys, key@, old_keys.len() as int);
        }
        match self.index_of(key.as_slice()) {
            Some(i) => {
                let ghost kv = self.keys@[i as int];
                self.values.set(i, value);
                assert forall|k: Seq<u8>| #[trigger]
                    self.lookup(k) == if k == derived_key(value) {
                        Some(value)
                    } else {
                        old(self).lookup(k)
                    } by {
                    lemma_find(old_keys, k, old_keys.len() as int);
                }
            },
            None => {
                self.keys.push(key);
                self.values.push(value);
                assert forall|k: Seq<u8>| #[trigger]
                    self.lookup(k) == if k == derived_key(value) {
                        Some(value)
                    } else {
                        old(self).lookup(k)
                    } by {
                    lemma_find_push(old_keys, k, old_keys.len() as int, self.keys@.last());
                    lemma_find(old_keys, k, old_keys.len() as int);
                }
            },
        }
    }
}

proof fn lemma_find_tail(keys: Seq<Vec<u8>>, k: Seq<u8>, n: int, m: int)
    requires
        0 < n <= m <= keys.len(),
        find(keys, k, n) >= 0,
    ensures
        find(keys, k, m) == find(keys, k, n),
    decreases m - n,
{
    if n < m {
        lemma_find_tail(keys, k, n + 1, m);
    }
}

/// Every record admitted to a well-formed store is stored under the key that
/// its value derives.
pub proof fn lemma_admitted_key_derived(store: LocalStore, k: Seq<u8>)
    requires
        store.wf(),
    ensures
        store.lookup(k) matches Some(v) ==> k == derived_key(v),
{
    lemma_find(store.keys@, k, store.keys@.len() as int);
}

} // verus!
