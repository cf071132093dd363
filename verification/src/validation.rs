//! Validation of incoming stubs: decodable inline content and its hash,
//! signature, timestamp, branch vector size and flag consistency, checked
//! in that order.
use vstd::prelude::*;

use crate::bytes::zeros32;
use crate::ext_blake3::blake3_digest;
use crate::ext_hex::{hex_encode, hex_lower};
use crate::ext_std::unix_millis_now;
use crate::format::{hash_content, spec_inline_text, Stub, MAX_BRANCH_VECTOR_LEN};
use crate::signing::{stub_signature_valid, verify_stub_signature};

verus! {

/// Maximum allowed timestamp drift into the future (5 minutes).
pub const MAX_FUTURE_DRIFT_MS: u64 = 300000;

/// Maximum age for a stub to be accepted (1 year).
pub const MAX_AGE_MS: u64 = 31536000000;

/// Why a stub is invalid.
#[derive(Debug)]
pub enum ValidationError {
    HashMismatch { expected: String, got: String },
    /// The inline content does not decompress to UTF-8 text, so its hash
    /// cannot be checked; holds the decoding error's message.
    InlineContentUndecodable(String),
    SignatureInvalid(String),
    TimestampFuture(u64),
    TimestampTooOld(u64),
    BranchVectorTooLong(usize),
    InlineContentFlagMismatch,
    ContentRefAndInlineConflict,
}

/// Result of validating a stub.
#[derive(Debug)]
pub enum ValidationResult {
    Valid,
    Invalid(ValidationError),
}

impl ValidationResult {
    pub fn is_valid(&self) -> (r: bool)
        ensures
            r == (self is Valid),
    {
        match self {
            ValidationResult::Valid => true,
            ValidationResult::Invalid(_) => false,
        }
    }
}

/// The hash of a stub's decoded inline text, where it has one.
pub open spec fn inline_text_digest(stub: Stub) -> Option<Seq<u8>> {
    match spec_inline_text(stub) {
        Some(Some(t)) => Some(blake3_digest(vstd::utf8::encode_utf8(t))),
        _ => None,
    }
}

/// Check 1a: inline content must decompress to UTF-8 text.
pub open spec fn inline_undecodable(stub: Stub) -> bool {
    &&& stub.flags.content_is_inline
    &&& stub.inline_content@.len() > 0
    &&& spec_inline_text(stub) is None
}

/// Check 1b: that text must hash to the content hash.
pub open spec fn hash_mismatch(stub: Stub) -> bool {
    &&& stub.flags.content_is_inline
    &&& stub.inline_content@.len() > 0
    &&& inline_text_digest(stub) matches Some(h) && h != stub.content_hash@
}

/// Check 3: the timestamp may lie at most `MAX_FUTURE_DRIFT_MS` ahead.
pub open spec fn too_far_ahead(stub: Stub, now: u64) -> bool {
    stub.timestamp > now + MAX_FUTURE_DRIFT_MS
}

/// Check 4: the timestamp may lie at most `MAX_AGE_MS` back.
pub open spec fn too_old(stub: Stub, now: u64) -> bool {
    now > stub.timestamp && now - stub.timestamp > MAX_AGE_MS
}

/// Check 5: the branch vector must fit `MAX_BRANCH_VECTOR_LEN` bytes.
pub open spec fn branch_vector_too_long(stub: Stub) -> bool {
    stub.branch_vector.spec_bytes().len() > MAX_BRANCH_VECTOR_LEN
}

/// Check 6: inline content needs the inline flag.
pub open spec fn inline_flag_mismatch(stub: Stub) -> bool {
    stub.inline_content@.len() > 0 && !stub.flags.content_is_inline
}

/// Check 7: a content reference excludes the inline flag.
pub open spec fn content_ref_conflict(stub: Stub) -> bool {
    stub.content_ref@ != zeros32() && stub.flags.content_is_inline
}

/// Whether `r` is what validating `stub` at time `now` gives: the first
/// check that fails, with its details, or `Valid`.
pub open spec fn validation_outcome(stub: Stub, now: u64, r: ValidationResult) -> bool {
    if inline_undecodable(stub) {
        r matches ValidationResult::Invalid(ValidationError::InlineContentUndecodable(_))
    } else if hash_mismatch(stub) {
        r matches ValidationResult::Invalid(ValidationError::HashMismatch { expected, got })
            && expected@ == hex_lower(inline_text_digest(stub).unwrap()) && got@ == hex_lower(
            stub.content_hash@,
        )
    } else if !stub_signature_valid(stub) {
        r matches ValidationResult::Invalid(ValidationError::SignatureInvalid(_))
    } else if too_far_ahead(stub, now) {
        r matches ValidationResult::Invalid(ValidationError::TimestampFuture(d)) && d
            == stub.timestamp - now
    } else if too_old(stub, now) {
        r matches ValidationResult::Invalid(ValidationError::TimestampTooOld(d)) && d == now
            - stub.timestamp
    } else if branch_vector_too_long(stub) {
        r matches ValidationResult::Invalid(ValidationError::BranchVectorTooLong(n)) && n
            == stub.branch_vector.spec_bytes().len()
    } else if inline_flag_mismatch(stub) {
        r matches ValidationResult::Invalid(ValidationError::InlineContentFlagMismatch)
    } else if content_ref_conflict(stub) {
        r matches ValidationResult::Invalid(ValidationError::ContentRefAndInlineConflict)
    } else {
        r is Valid
    }
}

/// Validate a stub against the given current time (Unix ms).
pub fn validate_stub_at(stub: &Stub, now: u64) -> (r: ValidationResult)
    ensures
        validation_outcome(*stub, now, r),
{
    // 1. Verify content hash matches inline content (if inline)
    if stub.flags.content_is_inline && stub.inline_content.len() != 0 {
        match stub.inline_text() {
            Ok(Some(text)) => {
                let expected = hash_content(text.as_str());
                if !crate::bytes::bytes32_eq(&expected, &stub.content_hash) {
                    return ValidationResult::Invalid(
                        ValidationError::HashMismatch {
                            expected: hex_encode(&expected),
                            got: hex_encode(&stub.content_hash),
                        },
                    );
                }
            },
            Ok(None) => {},
            Err(e) => {
                return ValidationResult::Invalid(
                    ValidationError::InlineContentUndecodable(e.message()),
                );
            },
        }
    }
    // 2. Verify signature

    match verify_stub_signature(stub) {
        Ok(()) => {},
        Err(e) => {
            return ValidationResult::Invalid(ValidationError::SignatureInvalid(e.message()));
        },
    }
    // 3. Verify timestamp sanity
    if stub.timestamp > now && stub.timestamp - now > MAX_FUTURE_DRIFT_MS {
        return ValidationResult::Invalid(ValidationError::TimestampFuture(stub.timestamp - now));
    }
    if now > stub.timestamp && (now - stub.timestamp) > MAX_AGE_MS {
        return ValidationResult::Invalid(ValidationError::TimestampTooOld(now - stub.timestamp));
    }
    // 4. Branch vector size

    let bv_len = stub.branch_vector.to_bytes().len();
    if bv_len > MAX_BRANCH_VECTOR_LEN {
        return ValidationResult::Invalid(ValidationError::BranchVectorTooLong(bv_len));
    }
    // 5. Flag consistency

    if stub.inline_content.len() != 0 && !stub.flags.content_is_inline {
        return ValidationResult::Invalid(ValidationError::InlineContentFlagMismatch);
    }
    if !crate::bytes::is_zero32(&stub.content_ref) && stub.flags.content_is_inline {
        return ValidationResult::Invalid(ValidationError::ContentRefAndInlineConflict);
    }
    ValidationResult::Valid
}

/// Validate an incoming stub against the current time (time 0 where the
/// clock reads before the Unix epoch). Returns Valid or Invalid with reason.
pub fn validate_stub(stub: &Stub) -> (r: ValidationResult)
    ensures
        exists|now: u64| #[trigger] validation_outcome(*stub, now, r),
{
    let now = match unix_millis_now() {
        Some(t) => t,
        None => 0,
    };
    validate_stub_at(stub, now)
}

} // verus!
