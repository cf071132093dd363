//! Passphrase-encrypted storage of an identity's secret key.
//!
//! A 32-byte key is derived from the passphrase with Argon2id; the secret
//! key is stored XORed with it, hex-encoded, beside the hex BLAKE3 hash of
//! the derived key, which tells a wrong passphrase apart.
use vstd::prelude::*;
use vstd::string::{StringExecFns, StringSliceAdditionalSpecFns};

use crate::ext_argon2::{argon2_generate_salt, argon2id_hash, argon2id_output};
use crate::ext_blake3::{blake3_digest, blake3_hash_hex};
use crate::ext_hex::{hex_decode, hex_decoded, hex_encode, hex_lower, lemma_hex_roundtrip};
use crate::keypair::Identity;

verus! {

/// Argon2id memory cost (KiB) of new keystores.
pub const KEYSTORE_M_COST: u32 = 65536;

/// Argon2id time cost of new keystores.
pub const KEYSTORE_T_COST: u32 = 3;

/// Argon2id parallelism of new keystores.
pub const KEYSTORE_P_COST: u32 = 1;

/// Errors of keystores. Reading and writing files happens outside this
/// library, which reports those failures as text.
#[derive(Debug)]
pub enum KeystoreError {
    WrongPassphrase,
    Corrupted,
    Io(String),
    Json(String),
    Argon2(String),
}

impl KeystoreError {
    /// The text of the error.
    pub open spec fn spec_message(&self) -> Seq<char> {
        match self {
            KeystoreError::WrongPassphrase => "wrong passphrase"@,
            KeystoreError::Corrupted => "corrupted keystore file"@,
            KeystoreError::Io(m) => "IO error: "@ + m@,
            KeystoreError::Json(m) => "JSON error: "@ + m@,
            KeystoreError::Argon2(m) => "argon2 error: "@ + m@,
        }
    }

    /// The text of the error.
    pub fn message(&self) -> (r: String)
        ensures
            r@ == self.spec_message(),
    {
        match self {
            KeystoreError::WrongPassphrase => String::from_str("wrong passphrase"),
            KeystoreError::Corrupted => String::from_str("corrupted keystore file"),
            KeystoreError::Io(m) => {
                let mut r = String::from_str("IO error: ");
                r.append(m.as_str());
                r
            },
            KeystoreError::Json(m) => {
                let mut r = String::from_str("JSON error: ");
                r.append(m.as_str());
                r
            },
            KeystoreError::Argon2(m) => {
                let mut r = String::from_str("argon2 error: ");
                r.append(m.as_str());
                r
            },
        }
    }
}

/// On-disk format for an encrypted identity.
#[derive(Debug)]
pub struct EncryptedKeystore {
    /// Argon2id salt (22 chars, base64)
    pub salt: String,
    /// Argon2id parameters
    pub argon2_m_cost: u32,
    pub argon2_t_cost: u32,
    pub argon2_p_cost: u32,
    /// XOR-encrypted secret key (32 bytes, hex-encoded)
    pub encrypted_secret: String,
    /// BLAKE3 hash of the derived key, to verify passphrase correctness
    pub key_check: String,
}

/// The bytes XORed pairwise, as long as `a`.
pub open spec fn xor_bytes(a: Seq<u8>, b: Seq<u8>) -> Seq<u8> {
    Seq::new(a.len(), |i: int| a[i] ^ b[i])
}

/// The 32-byte key that `passphrase` derives with the given costs and salt:
/// the first 32 bytes of the Argon2id output; `None` when the derivation
/// fails or gives fewer bytes.
pub open spec fn derived_key(
    m_cost: u32,
    t_cost: u32,
    p_cost: u32,
    passphrase: Seq<char>,
    salt: Seq<char>,
) -> Option<Seq<u8>> {
    match argon2id_output(m_cost, t_cost, p_cost, vstd::utf8::encode_utf8(passphrase), salt) {
        Some(out) => if out.len() >= 32 {
            Some(out.take(32))
        } else {
            None
        },
        None => None,
    }
}

/// Whether `ks` holds `secret` under `passphrase`: the key derives, the
/// stored secret is the hex of the secret XOR the key, and the check is the
/// hex of the key's BLAKE3 hash.
pub open spec fn sealed(ks: EncryptedKeystore, secret: Seq<u8>, passphrase: Seq<char>) -> bool {
    match derived_key(ks.argon2_m_cost, ks.argon2_t_cost, ks.argon2_p_cost, passphrase, ks.salt@) {
        Some(key) => {
            &&& ks.encrypted_secret@ == hex_lower(xor_bytes(secret, key))
            &&& ks.key_check@ == hex_lower(blake3_digest(key))
        },
        None => false,
    }
}

/// What decrypting a keystore gives.
pub enum Unsealed {
    Secret(Seq<u8>),
    WrongPassphrase,
    Corrupted,
    Argon2,
}

/// What decrypting `ks` with `passphrase` gives: an Argon2 failure when the
/// key does not derive; a wrong passphrase when the key's check differs; a
/// corrupted keystore when the stored secret is no hex of 32 bytes; else the
/// secret.
pub open spec fn unsealed(ks: EncryptedKeystore, passphrase: Seq<char>) -> Unsealed {
    match derived_key(ks.argon2_m_cost, ks.argon2_t_cost, ks.argon2_p_cost, passphrase, ks.salt@) {
        None => Unsealed::Argon2,
        Some(key) => if hex_lower(blake3_digest(key)) != ks.key_check@ {
            Unsealed::WrongPassphrase
        } else {
            match hex_decoded(vstd::utf8::encode_utf8(ks.encrypted_secret@)) {
                Some(enc) => if enc.len() == 32 {
                    Unsealed::Secret(xor_bytes(enc, key))
                } else {
                    Unsealed::Corrupted
                },
                None => Unsealed::Corrupted,
            }
        },
    }
}

/// Whether Argon2 can check the costs without overflow: it computes
/// `8 * p_cost` in 32 bits once the memory cost reaches its minimum of 8.
pub open spec fn argon2_costs_supported(m_cost: u32, p_cost: u32) -> bool {
    m_cost < 8 || p_cost <= 0x1fff_ffff
}

/// Derive the 32-byte key for a passphrase.
fn derive_key(m_cost: u32, t_cost: u32, p_cost: u32, passphrase: &str, salt: &str) -> (r: Result<
    [u8; 32],
    KeystoreError,
>)
    requires
        argon2_costs_supported(m_cost, p_cost),
    ensures
        r matches Ok(k) ==> derived_key(m_cost, t_cost, p_cost, passphrase@, salt@) == Some(k@),
        r is Err ==> derived_key(m_cost, t_cost, p_cost, passphrase@, salt@) is None,
        r matches Err(e) ==> e is Argon2,
{
    let bytes = match argon2id_hash(m_cost, t_cost, p_cost, passphrase.as_bytes(), salt) {
        Ok(Some(b)) => b,
        Ok(None) => return Err(KeystoreError::Argon2(String::from_str("no hash output"))),
        Err(e) => return Err(KeystoreError::Argon2(e)),
    };
    if bytes.len() < 32 {
        return Err(KeystoreError::Argon2(String::from_str("hash output too short")));
    }
    let mut key = [0u8; 32];
    let mut i: usize = 0;
    while i < 32
        invariant
            0 <= i <= 32,
            bytes@.len() >= 32,
            forall|j: int| 0 <= j < i ==> key@[j] == bytes@[j],
        decreases 32 - i,
    {
        key[i] = bytes[i];
        i += 1;
    }
    assert(key@ =~= bytes@.take(32));
    Ok(key)
}

/// The 32 bytes XORed pairwise.
fn xor32(a: &[u8; 32], b: &[u8]) -> (r: [u8; 32])
    requires
        b@.len() >= 32,
    ensures
        r@ == xor_bytes(a@, b@),
{
    let mut out = [0u8; 32];
    let mut i: usize = 0;
    while i < 32
        invariant
            0 <= i <= 32,
            b@.len() >= 32,
            forall|j: int| 0 <= j < i ==> out@[j] == a@[j] ^ b@[j],
        decreases 32 - i,
    {
        out[i] = a[i] ^ b[i];
        i += 1;
    }
    assert(out@ =~= xor_bytes(a@, b@));
    out
}

impl EncryptedKeystore {
    /// Encrypt an identity with a passphrase under a fresh random salt.
    pub fn encrypt(identity: &Identity, passphrase: &str) -> (r: Result<Self, KeystoreError>)
        ensures
            r matches Ok(ks) ==> sealed(ks, identity@, passphrase@) && ks.argon2_m_cost
                == KEYSTORE_M_COST && ks.argon2_t_cost == KEYSTORE_T_COST && ks.argon2_p_cost
                == KEYSTORE_P_COST,
            r matches Err(e) ==> e is Argon2,
    {
        let salt = argon2_generate_salt();
        Self::encrypt_with_salt(identity, passphrase, salt)
    }

    /// Encrypt an identity with a passphrase under the given B64 salt.
    pub fn encrypt_with_salt(identity: &Identity, passphrase: &str, salt: String) -> (r: Result<
        Self,
        KeystoreError,
    >)
        ensures
            r is Ok <==> derived_key(
                KEYSTORE_M_COST,
                KEYSTORE_T_COST,
                KEYSTORE_P_COST,
                passphrase@,
                salt@,
            ) is Some,
            r matches Ok(ks) ==> sealed(ks, identity@, passphrase@) && ks.salt@ == salt@
                && ks.argon2_m_cost == KEYSTORE_M_COST && ks.argon2_t_cost == KEYSTORE_T_COST
                && ks.argon2_p_cost == KEYSTORE_P_COST,
            r matches Err(e) ==> e is Argon2,
    {
        let derived = match derive_key(
            KEYSTORE_M_COST,
            KEYSTORE_T_COST,
            KEYSTORE_P_COST,
            passphrase,
            salt.as_str(),
        ) {
            Ok(k) => k,
            Err(e) => return Err(e),
        };
        let key_check = blake3_hash_hex(&derived);
        let secret = identity.secret_key_bytes();
        let encrypted = xor32(secret, &derived);
        Ok(
            EncryptedKeystore {
                salt,
                argon2_m_cost: KEYSTORE_M_COST,
                argon2_t_cost: KEYSTORE_T_COST,
                argon2_p_cost: KEYSTORE_P_COST,
                encrypted_secret: hex_encode(&encrypted),
                key_check,
            },
        )
    }

    /// Decrypt the keystore with a passphrase, recovering the identity.
    pub fn decrypt(&self, passphrase: &str) -> (r: Result<Identity, KeystoreError>)
        requires
            argon2_costs_supported(self.argon2_m_cost, self.argon2_p_cost),
        ensures
            match unsealed(*self, passphrase@) {
                Unsealed::Secret(s) => r matches Ok(id) && id@ == s,
                Unsealed::WrongPassphrase => r matches Err(KeystoreError::WrongPassphrase),
                Unsealed::Corrupted => r matches Err(KeystoreError::Corrupted),
                Unsealed::Argon2 => r matches Err(KeystoreError::Argon2(_)),
            },
    {
        let derived = match derive_key(
            self.argon2_m_cost,
            self.argon2_t_cost,
            self.argon2_p_cost,
            passphrase,
            self.salt.as_str(),
        ) {
            Ok(k) => k,
            Err(e) => return Err(e),
        };
        let check = blake3_hash_hex(&derived);
        if check != self.key_check {
            return Err(KeystoreError::WrongPassphrase);
        }
        let encrypted_bytes = match hex_decode(self.encrypted_secret.as_str()) {
            Ok(b) => b,
            Err(_) => return Err(KeystoreError::Corrupted),
        };
        if encrypted_bytes.len() != 32 {
            return Err(KeystoreError::Corrupted);
        }
        let mut enc = [0u8; 32];
        let mut i: usize = 0;
        while i < 32
            invariant
                0 <= i <= 32,
                encrypted_bytes@.len() == 32,
                forall|j: int| 0 <= j < i ==> enc@[j] == encrypted_bytes@[j],
            decreases 32 - i,
        {
            enc[i] = encrypted_bytes[i];
            i += 1;
        }
        assert(enc@ =~= encrypted_bytes@);
        let secret = xor32(&enc, &derived);
        Ok(Identity::from_secret_bytes(&secret))
    }
}

/// XORing twice with the same key gives the bytes back.
proof fn lemma_xor_twice(a: Seq<u8>, k: Seq<u8>)
    requires
        a.len() == 32,
        k.len() >= 32,
    ensures
        xor_bytes(xor_bytes(a, k), k) == a,
{
    assert forall|i: int| 0 <= i < 32 implies #[trigger] xor_bytes(xor_bytes(a, k), k)[i] == a[i] by {
        let x = a[i];
        let y = k[i];
        assert((x ^ y) ^ y == x) by (bit_vector);
    }
    assert(xor_bytes(xor_bytes(a, k), k) =~= a);
}

/// A keystore that holds a 32-byte secret under a passphrase gives that
/// secret back when decrypted with the same passphrase.
pub proof fn lemma_keystore_roundtrip(ks: EncryptedKeystore, secret: Seq<u8>, passphrase: Seq<char>)
    requires
        secret.len() == 32,
        sealed(ks, secret, passphrase),
    ensures
        unsealed(ks, passphrase) == Unsealed::Secret(secret),
{
    let key = derived_key(ks.argon2_m_cost, ks.argon2_t_cost, ks.argon2_p_cost, passphrase, ks.salt@)->0;
    let enc = xor_bytes(secret, key);
    lemma_hex_roundtrip(enc);
    lemma_xor_twice(secret, key);
}

} // verus!
