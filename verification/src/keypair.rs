//! Identities: an Ed25519 keypair is a Pulse identity.
use vstd::prelude::*;

use crate::ext_ed25519::{
    ed25519_check_public_key, ed25519_generate_secret, ed25519_key_decodes, ed25519_public_key,
    ed25519_public_key_of, ed25519_sign, ed25519_signature, ed25519_verifies, ed25519_verify,
};
use crate::ext_hex::{hex_encode, hex_lower, lemma_hex_lower_len};

verus! {

/// Length in bytes of a secret key.
pub const SECRET_KEY_LENGTH: usize = 32;

/// Errors of identities.
#[derive(Debug)]
pub enum IdentityError {
    InvalidSecretKey,
    InvalidPublicKey,
    SignatureInvalid(ed25519_dalek::SignatureError),
}

/// A 64-byte Ed25519 signature.
#[derive(Debug, Clone, Copy, PartialEq, Eq)]
pub struct Signature {
    bytes: [u8; 64],
}

impl View for Signature {
    type V = Seq<u8>;

    closed spec fn view(&self) -> Seq<u8> {
        self.bytes@
    }
}

impl Signature {
    pub fn from_bytes(bytes: &[u8; 64]) -> (r: Self)
        ensures
            r@ == bytes@,
    {
        Signature { bytes: *bytes }
    }

    pub fn to_bytes(&self) -> (r: [u8; 64])
        ensures
            r@ == self@,
    {
        self.bytes
    }
}

/// A Pulse identity — an Ed25519 keypair, held as its secret key.
///
/// The public key is the identity. The private key signs speech acts.
/// Nothing in the protocol links this to a real-world identity.
#[derive(Clone)]
pub struct Identity {
    secret_key: [u8; 32],
}

impl View for Identity {
    type V = Seq<u8>;

    /// The secret key bytes.
    closed spec fn view(&self) -> Seq<u8> {
        self.secret_key@
    }
}

/// Public identity — the verifying (public) key only.
/// Safe to share, store, and transmit.
#[derive(Debug, Clone, Copy, PartialEq, Eq, Hash)]
pub struct PublicIdentity {
    key: [u8; 32],
}

impl View for PublicIdentity {
    type V = Seq<u8>;

    /// The public key bytes.
    closed spec fn view(&self) -> Seq<u8> {
        self.key@
    }
}

impl PublicIdentity {
    /// The key bytes always decode to a curve point.
    #[verifier::type_invariant]
    closed spec fn decodes(&self) -> bool {
        ed25519_key_decodes(self.key@)
    }
}

impl Identity {
    /// Generate a new random identity.
    pub fn generate() -> (r: Self)
        ensures
            r@.len() == 32,
    {
        Identity { secret_key: ed25519_generate_secret() }
    }

    /// Create an identity from a known seed (deterministic — for testing only).
    pub fn from_seed(seed: &[u8; 32]) -> (r: Self)
        ensures
            r@ == seed@,
    {
        Identity { secret_key: *seed }
    }

    /// Create an identity from existing secret key bytes.
    pub fn from_secret_bytes(bytes: &[u8; 32]) -> (r: Self)
        ensures
            r@ == bytes@,
    {
        Identity { secret_key: *bytes }
    }

    /// Get the public identity (verifying key).
    pub fn public(&self) -> (r: PublicIdentity)
        ensures
            r@ == ed25519_public_key(self@),
    {
        PublicIdentity { key: ed25519_public_key_of(&self.secret_key) }
    }

    /// Get the raw public key bytes (32 bytes).
    pub fn public_key_bytes(&self) -> (r: [u8; 32])
        ensures
            r@ == ed25519_public_key(self@),
            ed25519_key_decodes(r@),
    {
        ed25519_public_key_of(&self.secret_key)
    }

    /// Get the raw secret key bytes (32 bytes).
    /// Handle with care — this is the private key material.
    pub fn secret_key_bytes(&self) -> (r: &[u8; 32])
        ensures
            r@ == self@,
    {
        &self.secret_key
    }

    /// Sign arbitrary bytes. The signature verifies under this identity's
    /// public key.
    pub fn sign(&self, message: &[u8]) -> (r: Signature)
        ensures
            r@ == ed25519_signature(self@, message@),
            ed25519_verifies(ed25519_public_key(self@), message@, r@),
    {
        Signature { bytes: ed25519_sign(&self.secret_key, message) }
    }
}

impl PublicIdentity {
    /// Create from raw public key bytes.
    pub fn from_bytes(bytes: &[u8; 32]) -> (r: Result<Self, IdentityError>)
        ensures
            r is Ok <==> ed25519_key_decodes(bytes@),
            r matches Ok(p) ==> p@ == bytes@,
            r matches Err(e) ==> e is InvalidPublicKey,
    {
        match ed25519_check_public_key(bytes) {
            Ok(()) => Ok(PublicIdentity { key: *bytes }),
            Err(_) => Err(IdentityError::InvalidPublicKey),
        }
    }

    /// Get the raw public key bytes.
    pub fn as_bytes(&self) -> (r: &[u8; 32])
        ensures
            r@ == self@,
    {
        &self.key
    }

    /// Verify a signature against this public key.
    pub fn verify(&self, message: &[u8], signature: &Signature) -> (r: Result<(), IdentityError>)
        ensures
            r is Ok <==> ed25519_verifies(self@, message@, signature@),
            r matches Err(e) ==> e is SignatureInvalid,
    {
        proof {
            use_type_invariant(self);
        }
        match ed25519_verify(&self.key, message, &signature.bytes) {
            Ok(()) => Ok(()),
            Err(e) => Err(IdentityError::SignatureInvalid(e)),
        }
    }

    /// Display as truncated hex (first 8 bytes) for UI: 16 hex digits.
    pub fn short_id(&self) -> (r: String)
        ensures
            r@ == hex_lower(self@.take(8)),
            r@.len() == 16,
    {
        let prefix = &self.key.as_slice()[0..8];
        proof {
            lemma_hex_lower_len(self@.take(8));
            assert(prefix@ =~= self@.take(8));
        }
        hex_encode(prefix)
    }

    /// Display as full hex for copy/paste: 64 hex digits.
    pub fn full_id(&self) -> (r: String)
        ensures
            r@ == hex_lower(self@),
            r@.len() == 64,
    {
        proof {
            lemma_hex_lower_len(self@);
        }
        hex_encode(&self.key)
    }
}

} // verus!
