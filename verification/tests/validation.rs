use pulse::format::{BranchVector, ReplyEligibility};
use pulse::keypair::Identity;
use pulse::signing::{create_inline_stub, create_inline_stub_at};
use pulse::validation::{
    validate_stub, validate_stub_at, ValidationError, ValidationResult, MAX_AGE_MS,
    MAX_FUTURE_DRIFT_MS,
};

#[test]
fn valid_stub_passes() {
    let id = Identity::generate();
    let stub = create_inline_stub(&id, "hello pulse", BranchVector::root(), ReplyEligibility::Open)
        .unwrap();
    assert!(validate_stub(&stub).is_valid());
}

#[test]
fn tampered_hash_rejected() {
    let id = Identity::generate();
    let mut stub =
        create_inline_stub(&id, "hello", BranchVector::root(), ReplyEligibility::Open).unwrap();
    stub.content_hash[0] ^= 0xff;
    assert!(!validate_stub(&stub).is_valid());
}

#[test]
fn future_timestamp_rejected() {
    let id = Identity::generate();
    let mut stub =
        create_inline_stub(&id, "future post", BranchVector::root(), ReplyEligibility::Open)
            .unwrap();

    // Set timestamp 10 minutes in the future
    stub.timestamp += 10 * 60 * 1000;
    // Re-sign with new timestamp
    let signed_bytes = stub.signed_bytes();
    let sig = id.sign(&signed_bytes);
    stub.signature = sig.to_bytes();

    assert!(!validate_stub(&stub).is_valid());
}

#[test]
fn flag_mismatch_rejected() {
    let id = Identity::generate();
    let mut stub =
        create_inline_stub(&id, "test", BranchVector::root(), ReplyEligibility::Open).unwrap();

    // Clear inline flag but keep content
    stub.flags.content_is_inline = false;
    // Re-sign
    let signed_bytes = stub.signed_bytes();
    let sig = id.sign(&signed_bytes);
    stub.signature = sig.to_bytes();

    assert!(!validate_stub(&stub).is_valid());
}

#[test]
fn hash_mismatch_reports_both_hashes() {
    let id = Identity::generate();
    let mut stub =
        create_inline_stub_at(&id, "hello", BranchVector::root(), ReplyEligibility::Open, 1000)
            .unwrap();
    stub.content_hash = [0u8; 32];
    match validate_stub_at(&stub, 1000) {
        ValidationResult::Invalid(ValidationError::HashMismatch { expected, got }) => {
            assert_eq!(expected.len(), 64);
            assert_eq!(got, "0".repeat(64));
        }
        other => panic!("unexpected {:?}", other),
    }
}

#[test]
fn timestamp_checks_at_given_time() {
    let id = Identity::generate();
    let stub =
        create_inline_stub_at(&id, "then", BranchVector::root(), ReplyEligibility::Open, 1_000_000)
            .unwrap();
    assert!(validate_stub_at(&stub, 1_000_000).is_valid());
    // Exactly the allowed drift ahead is fine; one more millisecond is not.
    assert!(validate_stub_at(&stub, 1_000_000 - MAX_FUTURE_DRIFT_MS).is_valid());
    assert!(matches!(
        validate_stub_at(&stub, 1_000_000 - MAX_FUTURE_DRIFT_MS - 1),
        ValidationResult::Invalid(ValidationError::TimestampFuture(300_001))
    ));
    assert!(validate_stub_at(&stub, 1_000_000 + MAX_AGE_MS).is_valid());
    assert!(matches!(
        validate_stub_at(&stub, 1_000_000 + MAX_AGE_MS + 1),
        ValidationResult::Invalid(ValidationError::TimestampTooOld(d)) if d == MAX_AGE_MS + 1
    ));
}

#[test]
fn signature_failure_reported() {
    let id = Identity::generate();
    let mut stub =
        create_inline_stub_at(&id, "sig", BranchVector::root(), ReplyEligibility::Open, 5000).unwrap();
    stub.signature[0] ^= 1;
    assert!(matches!(
        validate_stub_at(&stub, 5000),
        ValidationResult::Invalid(ValidationError::SignatureInvalid(_))
    ));
}

#[test]
fn content_ref_conflict_rejected() {
    let id = Identity::generate();
    let mut stub =
        create_inline_stub_at(&id, "ref", BranchVector::root(), ReplyEligibility::Open, 5000).unwrap();
    stub.content_ref = [1u8; 32];
    let signed_bytes = stub.signed_bytes();
    stub.signature = id.sign(&signed_bytes).to_bytes();
    assert!(matches!(
        validate_stub_at(&stub, 5000),
        ValidationResult::Invalid(ValidationError::ContentRefAndInlineConflict)
    ));
}

#[test]
fn long_branch_vector_rejected() {
    let id = Identity::generate();
    let bv = BranchVector { parent_hash: [1u8; 32], explicit_refs: vec![[2u8; 32]; 4] };
    let stub = create_inline_stub_at(&id, "long", bv, ReplyEligibility::Open, 5000).unwrap();
    assert!(matches!(
        validate_stub_at(&stub, 5000),
        ValidationResult::Invalid(ValidationError::BranchVectorTooLong(160))
    ));
}

#[test]
fn undecodable_inline_content_rejected() {
    let id = Identity::generate();
    let mut stub =
        create_inline_stub_at(&id, "text", BranchVector::root(), ReplyEligibility::Open, 5000).unwrap();
    // Four bytes of length prefix and a block that LZ4 cannot decode.
    stub.inline_content = vec![4, 0, 0, 0, 0xff, 0xff, 0xff];
    let signed_bytes = stub.signed_bytes();
    stub.signature = id.sign(&signed_bytes).to_bytes();
    assert!(matches!(
        validate_stub_at(&stub, 5000),
        ValidationResult::Invalid(ValidationError::InlineContentUndecodable(_))
    ));
    // Content that decompresses to bytes that are not UTF-8 is refused too.
    stub.inline_content = pulse::compression::compress(&[0xff, 0xfe]);
    assert!(matches!(
        validate_stub_at(&stub, 5000),
        ValidationResult::Invalid(ValidationError::InlineContentUndecodable(_))
    ));
}
