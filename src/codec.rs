//! Framing of records: `[version | kind tag | payload]`.
use vstd::prelude::*;
use crate::error::Error;

verus! {

/// The version of the record framing.
pub const RECORD_VERSION: u8 = 1;

/// Length of the header that precedes a record's payload.
pub const HEADER_LEN: usize = 2;

/// The kind of a record, which tells how its payload reads.
#[derive(Clone, Copy, Debug, PartialEq, Eq, Structural)]
pub enum RecordKind {
    Chunk,
    DbcSpend,
    Register,
}

/// The tag of a kind on the wire.
pub open spec fn kind_tag(k: RecordKind) -> u8 {
    match k {
        RecordKind::Chunk => 0,
        RecordKind::DbcSpend => 1,
        RecordKind::Register => 2,
    }
}

/// The kind of a tag, if it is one.
pub open spec fn kind_of_tag(t: u8) -> Option<RecordKind> {
    if t == 0 {
        Some(RecordKind::Chunk)
    } else if t == 1 {
        Some(RecordKind::DbcSpend)
    } else if t == 2 {
        Some(RecordKind::Register)
    } else {
        None
    }
}

impl RecordKind {
    /// The tag of this kind on the wire.
    pub fn tag(&self) -> (r: u8)
        ensures
            r == kind_tag(*self),
    {
        match self {
            RecordKind::Chunk => 0,
            RecordKind::DbcSpend => 1,
            RecordKind::Register => 2,
        }
    }

    /// The kind a tag stands for.
    pub fn from_tag(t: u8) -> (r: Option<RecordKind>)
        ensures
            r == kind_of_tag(t),
    {
        if t == 0 {
            Some(RecordKind::Chunk)
        } else if t == 1 {
            Some(RecordKind::DbcSpend)
        } else if t == 2 {
            Some(RecordKind::Register)
        } else {
            None
        }
    }
}

/// The header of a record.
#[derive(Clone, Copy, Debug, PartialEq, Eq, Structural)]
pub struct RecordHeader {
    pub version: u8,
    pub kind: RecordKind,
}

/// A stored record: its key and its framed bytes.
#[derive(Clone, Debug)]
pub struct Record {
    pub key: Vec<u8>,
    pub value: Vec<u8>,
}

/// The framed bytes of a payload of kind `k`.
pub open spec fn framed(k: RecordKind, payload: Seq<u8>) -> Seq<u8> {
    seq![RECORD_VERSION, kind_tag(k)] + payload
}

/// The header that some framed bytes carry, if they carry one.
pub open spec fn header_of(bytes: Seq<u8>) -> Option<RecordHeader> {
    if bytes.len() < HEADER_LEN || bytes[0] != RECORD_VERSION {
        None
    } else {
        match kind_of_tag(bytes[1]) {
            Some(k) => Some(RecordHeader { version: bytes[0], kind: k }),
            None => None,
        }
    }
}

/// Frames a payload of kind `kind`.
pub fn try_serialize_record(payload: &[u8], kind: RecordKind) -> (r: Vec<u8>)
    ensures
        r@ == framed(kind, payload@),
{
    let mut r: Vec<u8> = Vec::new();
    r.push(RECORD_VERSION);
    r.push(kind.tag());
    let mut i: usize = 0;
    while i < payload.len()
        invariant
            i <= payload@.len(),
            r@ == framed(kind, payload@.take(i as int)),
        decreases payload@.len() - i,
    {
        r.push(payload[i]);
        i = i + 1;
        assert(r@ =~= framed(kind, payload@.take(i as int)));
    }
    assert(payload@.take(i as int) =~= payload@);
    r
}

impl RecordHeader {
    /// Reads the header of some framed bytes.
    pub fn from_bytes(bytes: &[u8]) -> (r: Result<RecordHeader, Error>)
        ensures
            match r {
                Ok(h) => header_of(bytes@) == Some(h),
                Err(e) => header_of(bytes@) is None && e is RecordHeaderParsingFailed,
            },
    {
        if bytes.len() < HEADER_LEN || bytes[0] != RECORD_VERSION {
            return Err(Error::RecordHeaderParsingFailed);
        }
        match RecordKind::from_tag(bytes[1]) {
            Some(k) => Ok(RecordHeader { version: bytes[0], kind: k }),
            None => Err(Error::RecordHeaderParsingFailed),
        }
    }

    /// Reads the header of a record.
    pub fn from_record(record: &Record) -> (r: Result<RecordHeader, Error>)
        ensures
            match r {
                Ok(h) => header_of(record.value@) == Some(h),
                Err(e) => header_of(record.value@) is None && e is RecordHeaderParsingFailed,
            },
    {
        RecordHeader::from_bytes(record.value.as_slice())
    }
}

/// The payload of framed bytes that should hold a payload of kind `expected`.
pub open spec fn payload_of(bytes: Seq<u8>, expected: RecordKind) -> Option<Seq<u8>> {
    match header_of(bytes) {
        Some(h) => if h.kind == expected {
            Some(bytes.skip(HEADER_LEN as int))
        } else {
            None
        },
        None => None,
    }
}

/// Takes the payload out of framed bytes, which must be of kind `expected`.
pub fn try_deserialize_record(bytes: &[u8], expected: RecordKind) -> (r: Result<Vec<u8>, Error>)
    ensures
        match r {
            Ok(p) => payload_of(bytes@, expected) == Some(p@),
            Err(e) => payload_of(bytes@, expected) is None && match header_of(bytes@) {
                None => e is RecordHeaderParsingFailed,
                Some(_) => e == Error::RecordKindMismatch(expected),
            },
        },
{
    let header = RecordHeader::from_bytes(bytes)?;
    if header.kind != expected {
        return Err(Error::RecordKindMismatch(expected));
    }
    let mut r: Vec<u8> = Vec::new();
    let mut i: usize = HEADER_LEN;
    while i < bytes.len()
        invariant
            HEADER_LEN <= i <= bytes@.len(),
            r@ == bytes@.subrange(HEADER_LEN as int, i as int),
        decreases bytes@.len() - i,
    {
        r.push(bytes[i]);
        i = i + 1;
        assert(r@ =~= bytes@.subrange(HEADER_LEN as int, i as int));
    }
    assert(r@ =~= bytes@.skip(HEADER_LEN as int));
    Ok(r)
}

/// Reading back what was framed gives the kind and the payload that were framed.
pub proof fn lemma_frame_round_trip(k: RecordKind, payload: Seq<u8>)
    ensures
        header_of(framed(k, payload)) == Some(RecordHeader { version: RECORD_VERSION, kind: k }),
        payload_of(framed(k, payload), k) == Some(payload),
        framed(k, payload).len() == HEADER_LEN + payload.len(),
{
    assert(framed(k, payload).skip(HEADER_LEN as int) =~= payload);
}

/// Framing is one to one: equal framed bytes come from equal kinds and payloads.
pub proof fn lemma_frame_injective(kind_a: RecordKind, payload_a: Seq<u8>, kind_b: RecordKind, payload_b: Seq<u8>)
    requires
        framed(kind_a, payload_a) == framed(kind_b, payload_b),
    ensures
        kind_a == kind_b,
        payload_a == payload_b,
{
    lemma_frame_round_trip(kind_a, payload_a);
    lemma_frame_round_trip(kind_b, payload_b);
}

} // verus!
