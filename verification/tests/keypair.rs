use pulse::keypair::{Identity, PublicIdentity, Signature};

#[test]
fn generate_and_sign_verify() {
    let id = Identity::generate();
    let message = b"hello pulse";
    let sig = id.sign(message);
    assert!(id.public().verify(message, &sig).is_ok());
}

#[test]
fn wrong_message_fails_verify() {
    let id = Identity::generate();
    let sig = id.sign(b"hello");
    assert!(id.public().verify(b"wrong", &sig).is_err());
}

#[test]
fn wrong_key_fails_verify() {
    let id1 = Identity::generate();
    let id2 = Identity::generate();
    let sig = id1.sign(b"hello");
    assert!(id2.public().verify(b"hello", &sig).is_err());
}

#[test]
fn deterministic_from_seed() {
    let seed = [42u8; 32];
    let id1 = Identity::from_seed(&seed);
    let id2 = Identity::from_seed(&seed);
    assert_eq!(id1.public_key_bytes(), id2.public_key_bytes());
}

#[test]
fn public_key_roundtrip() {
    let id = Identity::generate();
    let bytes = id.public_key_bytes();
    let public = PublicIdentity::from_bytes(&bytes).unwrap();
    assert_eq!(public.as_bytes(), &bytes);
}

#[test]
fn short_id_is_16_hex_chars() {
    let id = Identity::generate();
    let short = id.public().short_id();
    assert_eq!(short.len(), 16);
    assert!(short.chars().all(|c| c.is_ascii_hexdigit()));
}

#[test]
fn full_id_is_64_hex_chars() {
    let id = Identity::generate();
    let full = id.public().full_id();
    assert_eq!(full.len(), 64);
}

#[test]
fn secret_key_roundtrip() {
    let id = Identity::generate();
    let secret = *id.secret_key_bytes();
    let id2 = Identity::from_secret_bytes(&secret);
    assert_eq!(id.public_key_bytes(), id2.public_key_bytes());
}

#[test]
fn rfc8032_test_vector_public_key() {
    // RFC 8032, section 7.1, test 1.
    let secret: [u8; 32] = [
        0x9d, 0x61, 0xb1, 0x9d, 0xef, 0xfd, 0x5a, 0x60, 0xba, 0x84, 0x4a, 0xf4, 0x92, 0xec, 0x2c,
        0xc4, 0x44, 0x49, 0xc5, 0x69, 0x7b, 0x32, 0x69, 0x19, 0x70, 0x3b, 0xac, 0x03, 0x1c, 0xae,
        0x7f, 0x60,
    ];
    let id = Identity::from_seed(&secret);
    let public = id.public();
    assert_eq!(
        public.full_id(),
        "d75a980182b10ab7d54bfed3c964073a0ee172f3daa62325af021a68f707511a"
    );
    assert_eq!(public.short_id(), "d75a980182b10ab7");
}

#[test]
fn signature_bytes_roundtrip() {
    let id = Identity::generate();
    let sig = id.sign(b"bytes");
    let again = Signature::from_bytes(&sig.to_bytes());
    assert_eq!(sig, again);
    assert!(id.public().verify(b"bytes", &again).is_ok());
}
