//! Building signed inline stubs and checking their signatures.
use vstd::prelude::*;
use vstd::string::{StrSliceExecFns, StringExecFns, StringSliceAdditionalSpecFns};

use crate::bytes::{zero32, zeros32};
use crate::compression;
use crate::ext_blake3::blake3_digest;
use crate::ext_ed25519::{
    ed25519_key_decodes, ed25519_public_key, ed25519_signature, ed25519_verifies,
    ed25519_verifies_strict, ed25519_verify_strict, signature_error_text,
};
use crate::ext_lz4::lz4_compressed;
use crate::decimal::{decimal, usize_to_decimal};
use crate::ext_std::unix_millis_now;
use crate::format::{hash_content, BranchVector, ReplyEligibility, Stub, StubFlags, MAX_INLINE_CHARS};
use crate::keypair::Identity;

verus! {

/// Errors of signing and verifying stubs.
#[derive(Debug)]
pub enum SigningError {
    ContentTooLong(usize),
    VerifyFailed(ed25519_dalek::SignatureError),
}

impl SigningError {
    /// The text of the error. For a failed verification the text of the
    /// signature error follows the prefix.
    pub fn message(&self) -> (r: String)
        ensures
            self matches SigningError::ContentTooLong(n) ==> r@
                == "content exceeds 300 character limit (got "@ + decimal(n as nat) + ")"@,
            self is VerifyFailed ==> r@.len() >= "signature verification failed: "@.len()
                && r@.take("signature verification failed: "@.len() as int)
                == "signature verification failed: "@,
    {
        match self {
            SigningError::ContentTooLong(n) => {
                let mut r = String::from_str("content exceeds 300 character limit (got ");
                r.append(usize_to_decimal(*n).as_str());
                r.append(")");
                r
            },
            SigningError::VerifyFailed(e) => {
                let mut r = String::from_str("signature verification failed: ");
                let ghost prefix = r@;
                r.append(signature_error_text(e).as_str());
                assert(r@.take(prefix.len() as int) =~= prefix);
                r
            },
        }
    }
}

/// Whether `stub` is the inline stub that `secret` signs for `text` under
/// `branch_vector` and `reply_eligibility` at `timestamp`.
pub open spec fn is_signed_inline_stub(
    stub: Stub,
    secret: Seq<u8>,
    text: Seq<u8>,
    branch_vector: BranchVector,
    reply_eligibility: ReplyEligibility,
    timestamp: u64,
) -> bool {
    &&& stub.content_hash@ == blake3_digest(text)
    &&& stub.author_pubkey@ == ed25519_public_key(secret)
    &&& stub.timestamp == timestamp
    &&& stub.flags == (StubFlags {
        content_is_inline: true,
        expiry_set: false,
        reply_eligibility,
    })
    &&& stub.branch_vector.parent_hash == branch_vector.parent_hash
    &&& stub.branch_vector.explicit_refs@ == branch_vector.explicit_refs@
    &&& stub.content_ref@ == zeros32()
    &&& stub.inline_content@ == lz4_compressed(text)
    &&& stub.signature@ == ed25519_signature(secret, stub.spec_signed_bytes())
}

/// Build and sign a new inline stub with the given timestamp. Content over
/// `MAX_INLINE_CHARS` characters is refused.
pub fn create_inline_stub_at(
    identity: &Identity,
    text: &str,
    branch_vector: BranchVector,
    reply_eligibility: ReplyEligibility,
    timestamp: u64,
) -> (r: Result<Stub, SigningError>)
    ensures
        r is Err <==> text@.len() > MAX_INLINE_CHARS,
        r matches Err(e) ==> e == SigningError::ContentTooLong(text@.len() as usize),
        r matches Ok(s) ==> is_signed_inline_stub(
            s,
            identity@,
            text.spec_bytes(),
            branch_vector,
            reply_eligibility,
            timestamp,
        ),
        r matches Ok(s) ==> ed25519_key_decodes(s.author_pubkey@) && ed25519_verifies(
            s.author_pubkey@,
            s.spec_signed_bytes(),
            s.signature@,
        ),
        r matches Ok(s) ==> s.inline_content@.len() >= 4,
{
    let char_count = text.unicode_len();
    if char_count > MAX_INLINE_CHARS {
        return Err(SigningError::ContentTooLong(char_count));
    }
    let content_hash = hash_content(text);
    let flags = StubFlags { content_is_inline: true, expiry_set: false, reply_eligibility };
    let compressed = compression::compress(text.as_bytes());
    let mut stub = Stub {
        content_hash,
        author_pubkey: identity.public_key_bytes(),
        signature: [0u8; 64],
        timestamp,
        flags,
        branch_vector,
        content_ref: zero32(),
        inline_content: compressed,
    };
    // Sign: content_hash + timestamp + branch_vector_bytes
    let signed_bytes = stub.signed_bytes();
    let sig = identity.sign(signed_bytes.as_slice());
    stub.signature = sig.to_bytes();
    Ok(stub)
}

/// Build and sign a new inline stub, timestamped with the current time
/// (time 0 where the clock reads before the Unix epoch).
pub fn create_inline_stub(
    identity: &Identity,
    text: &str,
    branch_vector: BranchVector,
    reply_eligibility: ReplyEligibility,
) -> (r: Result<Stub, SigningError>)
    ensures
        r is Err <==> text@.len() > MAX_INLINE_CHARS,
        r matches Err(e) ==> e == SigningError::ContentTooLong(text@.len() as usize),
        r matches Ok(s) ==> is_signed_inline_stub(
            s,
            identity@,
            text.spec_bytes(),
            branch_vector,
            reply_eligibility,
            s.timestamp,
        ),
        r matches Ok(s) ==> ed25519_key_decodes(s.author_pubkey@) && ed25519_verifies(
            s.author_pubkey@,
            s.spec_signed_bytes(),
            s.signature@,
        ),
        r matches Ok(s) ==> s.inline_content@.len() >= 4,
{
    if text.unicode_len() > MAX_INLINE_CHARS {
        return Err(SigningError::ContentTooLong(text.unicode_len()));
    }
    let timestamp = match unix_millis_now() {
        Some(t) => t,
        None => 0,
    };
    create_inline_stub_at(identity, text, branch_vector, reply_eligibility, timestamp)
}

/// Whether a stub's signature checks out: its author key decodes and the
/// strict verification of the signed bytes holds.
pub open spec fn stub_signature_valid(stub: Stub) -> bool {
    ed25519_key_decodes(stub.author_pubkey@) && ed25519_verifies_strict(
        stub.author_pubkey@,
        stub.spec_signed_bytes(),
        stub.signature@,
    )
}

/// Verify a stub's signature against its author's public key.
pub fn verify_stub_signature(stub: &Stub) -> (r: Result<(), SigningError>)
    ensures
        r is Ok <==> stub_signature_valid(*stub),
        r matches Err(e) ==> e is VerifyFailed,
{
    let signed_bytes = stub.signed_bytes();
    match ed25519_verify_strict(&stub.author_pubkey, signed_bytes.as_slice(), &stub.signature) {
        Ok(()) => Ok(()),
        Err(e) => Err(SigningError::VerifyFailed(e)),
    }
}

} // verus!
