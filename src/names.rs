//! Content names, digests and signatures, as the outside crates compute them.
use vstd::prelude::*;

verus! {

/// Length of a content name, a digest and a Merkle tree node, in bytes.
pub const NAME_LEN: usize = 32;

/// Length of a DBC identifier (a compressed BLS public key), in bytes.
pub const DBC_ID_LEN: usize = 48;

/// Length of a BLS signature, in bytes.
pub const SIG_LEN: usize = 96;

/// The content name of some bytes: their SHA3-256 digest as `xor_name` computes it.
pub uninterp spec fn xor_name_of(content: Seq<u8>) -> Seq<u8>;

/// The SHA3-256 digest of some bytes as `sn_dbc::Hash::hash` computes it.
pub uninterp spec fn sha3_256_of(input: Seq<u8>) -> Seq<u8>;

/// Whether `sig` is a valid BLS signature of `msg` under the public key `pk`.
pub uninterp spec fn signature_valid(pk: Seq<u8>, sig: Seq<u8>, msg: Seq<u8>) -> bool;

/// Whether some bytes are a valid compressed BLS public key, as a DBC id must be.
pub uninterp spec fn dbc_key_valid(b: Seq<u8>) -> bool;

/// Relies on `sn_dbc::PublicKey::from_bytes` (blsttc): whether the bytes
/// decode to a public key.
#[verifier::external_body]
pub(crate) fn is_dbc_key(b: &[u8]) -> (r: bool)
    requires
        b@.len() == DBC_ID_LEN,
    ensures
        r == dbc_key_valid(b@),
{
    b.try_into().map_or(false, |a| sn_dbc::PublicKey::from_bytes(a).is_ok())
}

/// Relies on `xor_name::XorName::from_content`: the 32-byte name of the content.
#[verifier::external_body]
pub(crate) fn content_name(content: &[u8]) -> (r: Vec<u8>)
    ensures
        r@ == xor_name_of(content@),
        r@.len() == NAME_LEN,
{
    xor_name::XorName::from_content(content).0.to_vec()
}

/// Relies on `sn_dbc::Hash::hash`: the 32-byte SHA3-256 digest of the input.
#[verifier::external_body]
pub(crate) fn hash_bytes(input: &[u8]) -> (r: Vec<u8>)
    ensures
        r@ == sha3_256_of(input@),
        r@.len() == NAME_LEN,
{
    sn_dbc::Hash::hash(input).slice().to_vec()
}

/// Relies on `sn_dbc::DbcId::verify` (BLS verification of blsttc): whether `sig`
/// signs `msg` under the DBC identifier `dbc_id`; bytes that are no valid key or
/// signature give `false`.
#[verifier::external_body]
pub(crate) fn verify_signature(dbc_id: &[u8], sig: &[u8], msg: &[u8]) -> (r: bool)
    requires
        dbc_id@.len() == DBC_ID_LEN,
        sig@.len() == SIG_LEN,
    ensures
        r == signature_valid(dbc_id@, sig@, msg@),
{
    let pk_bytes: [u8; 48] = match dbc_id.try_into() { Ok(b) => b, Err(_) => return false };
    let sig_bytes: [u8; 96] = match sig.try_into() { Ok(b) => b, Err(_) => return false };
    match (sn_dbc::PublicKey::from_bytes(pk_bytes), sn_dbc::Signature::from_bytes(sig_bytes)) {
        (Ok(pk), Ok(sig)) => sn_dbc::DbcId::new(pk).verify(&sig, msg),
        _ => false,
    }
}

} // verus!
