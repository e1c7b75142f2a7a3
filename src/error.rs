//! The errors of record validation.
use vstd::prelude::*;
use crate::codec::RecordKind;
use crate::dbc::SignedSpend;

verus! {

/// Why a list of spends was not stored.
#[derive(Clone, Copy, Debug, PartialEq, Eq, Structural)]
pub enum SpendNotStoredReason {
    /// The list was empty.
    NotProvided,
    /// The spends are not all for the same DBC.
    DbcIdMismatch,
    /// Nothing valid was left to store.
    NoValidSpend,
    /// The local store could not be read or written.
    StoreFailed,
}

/// Why a record was refused, or could not be stored or found.
#[derive(Debug)]
pub enum Error {
    /// The record's key is not the one its payload derives.
    RecordKeyMismatch,
    /// The record is not of the expected kind.
    RecordKindMismatch(RecordKind),
    /// The record's header could not be read.
    RecordHeaderParsingFailed,
    /// The chunk with this name was not stored.
    ChunkNotStored(Vec<u8>),
    /// The register with this name was not stored.
    RegisterNotStored(Vec<u8>),
    /// The spends were not stored.
    SpendNotStored(SpendNotStoredReason),
    /// The spend's signature does not verify.
    InvalidSpendSignature,
    /// The register's signature does not verify.
    InvalidRegister(Vec<u8>),
    /// The register with this name has another base than the local copy.
    RegisterMergeFailed(Vec<u8>),
    /// The parents of the spend do not back it.
    InvalidSpendParents,
    /// The payment proof does not bind this address to the fee output.
    InvalidPaymentProof { addr_name: Vec<u8>, reason: String },
    /// The spends paying for this address are not of one transaction.
    PaymentProofTxMismatch(Vec<u8>),
    /// The fee output's id is not the one its root hash and inputs derive.
    PaymentProofInvalidFeeOutput(Vec<u8>),
    /// The fee paid does not cover the address's position in the batch.
    PaymentProofInsufficientAmount { paid: u64, expected: u128 },
    /// The payment names no spent DBC.
    PaymentProofWithoutInputs(Vec<u8>),
    /// Two distinct witnesses spend the same DBC.
    DoubleSpendAttempt(Box<SignedSpend>, Box<SignedSpend>),
    /// More spends than one record may hold.
    MaxNumberOfSpendsExceeded,
    /// No spend was found at this DBC address.
    SpendNotFound(Vec<u8>),
}

} // verus!
