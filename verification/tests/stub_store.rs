use pulse::format::{BranchVector, ReplyEligibility};
use pulse::keypair::Identity;
use pulse::signing::create_inline_stub;
use pulse::stub_store::{decode_entry, decode_value, stub_entry, StubStoreError};

#[test]
fn entry_is_keyed_by_content_hash_and_decodes_back() {
    let id = Identity::generate();
    let stub = create_inline_stub(&id, "hello store", BranchVector::root(), ReplyEligibility::Open).unwrap();
    let (key, value) = stub_entry(&stub).unwrap();
    assert_eq!(key, stub.content_hash);
    assert_eq!(value, stub.to_bytes().unwrap());
    let (hash, back) = decode_entry(&key, &value).unwrap();
    assert_eq!(hash, stub.content_hash);
    assert_eq!(back.inline_text().unwrap().unwrap(), "hello store");
    let again = decode_value(&value).unwrap();
    assert_eq!(again.signature, stub.signature);
}

#[test]
fn undecodable_value_is_deserialize_error() {
    assert!(matches!(decode_value(&[1, 2, 3]), Err(StubStoreError::Deserialize(_))));
    assert!(matches!(decode_entry(&[0u8; 32], &[1, 2, 3]), Err(StubStoreError::Deserialize(_))));
}

#[test]
fn unencodable_stub_is_serialize_error() {
    let id = Identity::generate();
    let mut stub = create_inline_stub(&id, "x", BranchVector::root(), ReplyEligibility::Open).unwrap();
    stub.branch_vector.explicit_refs = vec![[0u8; 32]; 4];
    assert!(matches!(stub_entry(&stub), Err(StubStoreError::Serialize(_))));
}
