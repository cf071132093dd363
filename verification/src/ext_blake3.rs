//! Assumed contracts of the calls into `blake3`, the content hash of stubs and keystores.
use vstd::prelude::*;

use crate::ext_hex::hex_lower;

verus! {

/// The 32-byte BLAKE3 digest of the given bytes.
pub uninterp spec fn blake3_digest(data: Seq<u8>) -> Seq<u8>;

#[verifier::external_type_specification]
#[verifier::external_body]
pub struct ExBlake3Hash(blake3::Hash);

/// Calls `blake3::hash` and takes the digest's bytes. Claims: the result is
/// the named digest of the input.
#[verifier::external_body]
pub(crate) fn blake3_hash(data: &[u8]) -> (r: [u8; 32])
    ensures
        r@ == blake3_digest(data@),
{
    *blake3::hash(data).as_bytes()
}

/// Calls `blake3::Hash::from_bytes`; nothing is claimed of the value.
#[verifier::external_body]
pub(crate) fn blake3_hash_from_bytes(bytes: [u8; 32]) -> blake3::Hash {
    blake3::Hash::from_bytes(bytes)
}

/// Calls `blake3::hash` and its `to_hex`. Claims, as the documentation of
/// `to_hex` says: the lowercase hex text of the named digest.
#[verifier::external_body]
pub(crate) fn blake3_hash_hex(data: &[u8]) -> (r: String)
    ensures
        r@ == hex_lower(blake3_digest(data@)),
{
    blake3::hash(data).to_hex().to_string()
}

} // verus!
