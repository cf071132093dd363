//! Assumed contracts of the calls into `ed25519-dalek`: keys, signing and verification.
use vstd::prelude::*;

verus! {

/// The 32-byte Ed25519 public key of a 32-byte secret key
/// (`SigningKey::from_bytes(..).verifying_key().to_bytes()`).
pub uninterp spec fn ed25519_public_key(secret: Seq<u8>) -> Seq<u8>;

/// The 64-byte Ed25519 signature of a message under a secret key
/// (deterministic, RFC 8032).
pub uninterp spec fn ed25519_signature(secret: Seq<u8>, message: Seq<u8>) -> Seq<u8>;

/// Whether `VerifyingKey::from_bytes` accepts the 32 bytes (they decompress
/// to a curve point).
pub uninterp spec fn ed25519_key_decodes(public: Seq<u8>) -> bool;

/// Whether `VerifyingKey::verify` accepts a signature on a message.
pub uninterp spec fn ed25519_verifies(public: Seq<u8>, message: Seq<u8>, signature: Seq<u8>) -> bool;

/// Whether `VerifyingKey::verify_strict` accepts a signature on a message.
pub uninterp spec fn ed25519_verifies_strict(
    public: Seq<u8>,
    message: Seq<u8>,
    signature: Seq<u8>,
) -> bool;

#[verifier::external_type_specification]
#[verifier::external_body]
pub struct ExSignatureError(ed25519_dalek::SignatureError);

/// Calls `SigningKey::generate` with the operating system's RNG and returns
/// the secret key bytes. Nothing is claimed: the bytes are random.
#[verifier::external_body]
pub(crate) fn ed25519_generate_secret() -> [u8; 32] {
    ed25519_dalek::SigningKey::generate(&mut rand::rngs::OsRng).to_bytes()
}

/// Calls `SigningKey::from_bytes(secret).verifying_key().to_bytes()`.
/// Claims: the result is the named public key of the secret, and it
/// decodes again with `VerifyingKey::from_bytes` (the crate's documented
/// serialisation round trip).
#[verifier::external_body]
pub(crate) fn ed25519_public_key_of(secret: &[u8; 32]) -> (r: [u8; 32])
    ensures
        r@ == ed25519_public_key(secret@),
        ed25519_key_decodes(r@),
{
    ed25519_dalek::SigningKey::from_bytes(secret).verifying_key().to_bytes()
}

/// Calls `Signer::sign` on `SigningKey::from_bytes(secret)`. Claims: the
/// result is the named signature, and `verify` with the key's own public
/// key accepts it, as the crate's documentation shows.
#[verifier::external_body]
pub(crate) fn ed25519_sign(secret: &[u8; 32], message: &[u8]) -> (r: [u8; 64])
    ensures
        r@ == ed25519_signature(secret@, message@),
        ed25519_verifies(ed25519_public_key(secret@), message@, r@),
{
    ed25519_dalek::Signer::sign(&ed25519_dalek::SigningKey::from_bytes(secret), message).to_bytes()
}

/// Calls `VerifyingKey::from_bytes`, dropping the key. Claims: it succeeds
/// exactly when the named predicate holds.
#[verifier::external_body]
pub(crate) fn ed25519_check_public_key(public: &[u8; 32]) -> (r: Result<
    (),
    ed25519_dalek::SignatureError,
>)
    ensures
        r is Ok <==> ed25519_key_decodes(public@),
{
    ed25519_dalek::VerifyingKey::from_bytes(public).map(|_k| ())
}

/// Calls `VerifyingKey::from_bytes` and then `Verifier::verify` with
/// `Signature::from_bytes(signature)`. Claims: it succeeds exactly when the
/// key decodes and the named verification holds.
#[verifier::external_body]
pub(crate) fn ed25519_verify(public: &[u8; 32], message: &[u8], signature: &[u8; 64]) -> (r:
    Result<(), ed25519_dalek::SignatureError>)
    ensures
        r is Ok <==> (ed25519_key_decodes(public@) && ed25519_verifies(
            public@,
            message@,
            signature@,
        )),
{
    match ed25519_dalek::VerifyingKey::from_bytes(public) {
        Ok(key) => ed25519_dalek::Verifier::verify(
            &key,
            message,
            &ed25519_dalek::Signature::from_bytes(signature),
        ),
        Err(e) => Err(e),
    }
}

/// Calls `VerifyingKey::from_bytes` and then `verify_strict` with
/// `Signature::from_bytes(signature)`. Claims: it succeeds exactly when the
/// key decodes and the named strict verification holds.
#[verifier::external_body]
pub(crate) fn ed25519_verify_strict(
    public: &[u8; 32],
    message: &[u8],
    signature: &[u8; 64],
) -> (r: Result<(), ed25519_dalek::SignatureError>)
    ensures
        r is Ok <==> (ed25519_key_decodes(public@) && ed25519_verifies_strict(
            public@,
            message@,
            signature@,
        )),
{
    match ed25519_dalek::VerifyingKey::from_bytes(public) {
        Ok(key) => key.verify_strict(message, &ed25519_dalek::Signature::from_bytes(signature)),
        Err(e) => Err(e),
    }
}

/// Calls the `Display` impl of `SignatureError`; nothing is claimed of the
/// text.
#[verifier::external_body]
pub(crate) fn signature_error_text(e: &ed25519_dalek::SignatureError) -> String {
    format!("{}", e)
}

} // verus!
