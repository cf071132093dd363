use pulse::keypair::Identity;
use pulse::keystore::{EncryptedKeystore, KeystoreError};

#[test]
fn encrypt_decrypt_roundtrip() {
    let identity = Identity::generate();
    let original_pubkey = identity.public_key_bytes();

    let ks = EncryptedKeystore::encrypt(&identity, "test-passphrase").unwrap();
    let recovered = ks.decrypt("test-passphrase").unwrap();

    assert_eq!(recovered.public_key_bytes(), original_pubkey);
}

#[test]
fn wrong_passphrase_fails() {
    let identity = Identity::generate();
    let ks = EncryptedKeystore::encrypt(&identity, "correct").unwrap();
    assert!(matches!(ks.decrypt("wrong"), Err(KeystoreError::WrongPassphrase)));
}

#[test]
fn different_identities_produce_different_keystores() {
    let id1 = Identity::generate();
    let id2 = Identity::generate();

    let ks1 = EncryptedKeystore::encrypt(&id1, "pass").unwrap();
    let ks2 = EncryptedKeystore::encrypt(&id2, "pass").unwrap();

    assert_ne!(ks1.encrypted_secret, ks2.encrypted_secret);
}

#[test]
fn keystore_layout() {
    let identity = Identity::from_seed(&[7u8; 32]);
    let ks = EncryptedKeystore::encrypt_with_salt(&identity, "pass", "c29tZXNhbHRzb21lc2FsdA".to_string())
        .unwrap();
    assert_eq!(ks.salt, "c29tZXNhbHRzb21lc2FsdA");
    assert_eq!(ks.argon2_m_cost, 65536);
    assert_eq!(ks.argon2_t_cost, 3);
    assert_eq!(ks.argon2_p_cost, 1);
    assert_eq!(ks.encrypted_secret.len(), 64);
    assert_eq!(ks.key_check.len(), 64);
    // The stored secret is not the secret itself.
    assert_ne!(ks.encrypted_secret, "07".repeat(32));
    let recovered = ks.decrypt("pass").unwrap();
    assert_eq!(*recovered.secret_key_bytes(), [7u8; 32]);
}

#[test]
fn corrupted_secret_rejected() {
    let identity = Identity::generate();
    let mut ks = EncryptedKeystore::encrypt(&identity, "pass").unwrap();
    ks.encrypted_secret = "zz".to_string();
    assert!(matches!(ks.decrypt("pass"), Err(KeystoreError::Corrupted)));
}

#[test]
fn invalid_salt_is_argon2_error() {
    let identity = Identity::generate();
    let result = EncryptedKeystore::encrypt_with_salt(&identity, "pass", "!".to_string());
    assert!(matches!(result, Err(KeystoreError::Argon2(_))));
}

#[test]
fn too_many_threads_is_argon2_error() {
    let ks = EncryptedKeystore {
        salt: "c29tZXNhbHRzb21lc2FsdA".to_string(),
        argon2_m_cost: 65536,
        argon2_t_cost: 3,
        argon2_p_cost: 0x100_0000,
        encrypted_secret: "00".repeat(32),
        key_check: "00".repeat(32),
    };
    assert!(matches!(ks.decrypt("pass"), Err(KeystoreError::Argon2(_))));
    // A salt that is no B64 is refused first, with the salt's own error.
    let bad_salt = EncryptedKeystore { salt: "!".to_string(), argon2_p_cost: 1, ..ks };
    match bad_salt.decrypt("pass") {
        Err(KeystoreError::Argon2(m)) => assert!(!m.is_empty()),
        _ => panic!("expected an argon2 error"),
    }
}

#[test]
fn keystore_error_messages() {
    assert_eq!(KeystoreError::WrongPassphrase.message(), "wrong passphrase");
    assert_eq!(KeystoreError::Corrupted.message(), "corrupted keystore file");
    assert_eq!(KeystoreError::Io("gone".to_string()).message(), "IO error: gone");
}
