//! The stub: the signed, immutable unit of a speech act, and its binary
//! format.
//!
//! Layout of a serialized stub (all integers big-endian):
//!
//! | offset      | size | field                         |
//! |-------------|------|-------------------------------|
//! | 0           | 32   | content hash                  |
//! | 32          | 32   | author public key             |
//! | 64          | 64   | signature                     |
//! | 128         | 8    | timestamp (Unix ms)           |
//! | 136         | 2    | flags                         |
//! | 138         | 2    | branch vector length N        |
//! | 140         | N    | branch vector                 |
//! | 140+N       | 32   | content reference             |
//! | 172+N       | 2    | inline content length M       |
//! | 174+N       | M    | inline content (LZ4)          |
use vstd::prelude::*;
use vstd::string::{StringExecFns, StringSliceAdditionalSpecFns};

use crate::bytes::{
    append_bytes, array32_at, array64_at, be16, be64, is_zero32, lemma_be16_roundtrip,
    lemma_be64_roundtrip, push_be16, push_be64, read_be16, read_be16_at, read_be64, read_be64_at,
    zero32, zeros32,
};
use crate::compression;
use crate::ext_blake3::{blake3_digest, blake3_hash, blake3_hash_from_bytes};
use crate::decimal::{decimal, usize_to_decimal};
use crate::ext_std::{string_from_utf8, utf8_error_text};

verus! {

/// Maximum inline content length in characters before compression.
pub const MAX_INLINE_CHARS: usize = 300;

/// Maximum branch vector length in bytes.
pub const MAX_BRANCH_VECTOR_LEN: usize = 128;

/// Errors of building, encoding and decoding stubs.
#[derive(Debug)]
pub enum StubError {
    ContentTooLong(usize),
    BranchVectorTooLong(usize),
    Serialize(String),
    Deserialize(String),
    HashMismatch,
}

impl StubError {
    /// The text of the error.
    pub open spec fn spec_message(&self) -> Seq<char> {
        match self {
            StubError::ContentTooLong(n) => "content exceeds 300 character limit (got "@ + decimal(
                *n as nat,
            ) + ")"@,
            StubError::BranchVectorTooLong(n) => "branch vector exceeds 128 bytes (got "@
                + decimal(*n as nat) + ")"@,
            StubError::Serialize(s) => "serialization error: "@ + s@,
            StubError::Deserialize(s) => "deserialization error: "@ + s@,
            StubError::HashMismatch => "content hash mismatch"@,
        }
    }

    /// The text of the error.
    pub fn message(&self) -> (r: String)
        ensures
            r@ == self.spec_message(),
    {
        match self {
            StubError::ContentTooLong(n) => {
                let mut r = String::from_str("content exceeds 300 character limit (got ");
                r.append(usize_to_decimal(*n).as_str());
                r.append(")");
                r
            },
            StubError::BranchVectorTooLong(n) => {
                let mut r = String::from_str("branch vector exceeds 128 bytes (got ");
                r.append(usize_to_decimal(*n).as_str());
                r.append(")");
                r
            },
            StubError::Serialize(s) => {
                let mut r = String::from_str("serialization error: ");
                r.append(s.as_str());
                r
            },
            StubError::Deserialize(s) => {
                let mut r = String::from_str("deserialization error: ");
                r.append(s.as_str());
                r
            },
            StubError::HashMismatch => String::from_str("content hash mismatch"),
        }
    }
}

/// Reply eligibility — who can nest replies under this stub.
#[derive(Debug, Clone, Copy, PartialEq, Eq, Structural)]
pub enum ReplyEligibility {
    Open,
    TrustGraph,
    TrustedOnly,
}

impl ReplyEligibility {
    /// The two-bit code of a variant.
    pub open spec fn spec_code(self) -> u8 {
        match self {
            ReplyEligibility::Open => 0,
            ReplyEligibility::TrustGraph => 1,
            ReplyEligibility::TrustedOnly => 2,
        }
    }

    /// The variant that the low two bits of `bits` name; the unused code 3
    /// reads as `Open`.
    pub open spec fn spec_from_bits(bits: u8) -> ReplyEligibility {
        let v = bits & 3u8;
        if v == 1 {
            ReplyEligibility::TrustGraph
        } else if v == 2 {
            ReplyEligibility::TrustedOnly
        } else {
            ReplyEligibility::Open
        }
    }

    pub fn from_bits(bits: u8) -> (r: Self)
        ensures
            r == Self::spec_from_bits(bits),
    {
        let v = bits & 3u8;
        if v == 0 {
            ReplyEligibility::Open
        } else if v == 1 {
            ReplyEligibility::TrustGraph
        } else if v == 2 {
            ReplyEligibility::TrustedOnly
        } else {
            ReplyEligibility::Open
        }
    }

    pub fn to_bits(self) -> (r: u8)
        ensures
            r == self.spec_code(),
    {
        match self {
            ReplyEligibility::Open => 0,
            ReplyEligibility::TrustGraph => 1,
            ReplyEligibility::TrustedOnly => 2,
        }
    }
}

/// Stub flags — a 16-bit field: bit 0 inline content, bit 1 expiry set,
/// bits 2-3 reply eligibility.
#[derive(Debug, Clone, Copy, PartialEq, Eq, Structural)]
pub struct StubFlags {
    pub content_is_inline: bool,
    pub expiry_set: bool,
    pub reply_eligibility: ReplyEligibility,
}

impl StubFlags {
    pub open spec fn spec_to_u16(self) -> u16 {
        ((if self.content_is_inline {
            1u16
        } else {
            0u16
        }) + (if self.expiry_set {
            2u16
        } else {
            0u16
        }) + 4 * (self.reply_eligibility.spec_code() as u16)) as u16
    }

    pub open spec fn spec_from_u16(bits: u16) -> StubFlags {
        StubFlags {
            content_is_inline: bits & 1u16 != 0,
            expiry_set: bits & 2u16 != 0,
            reply_eligibility: ReplyEligibility::spec_from_bits(((bits >> 2u16) & 3u16) as u8),
        }
    }

    pub fn to_u16(self) -> (r: u16)
        ensures
            r == self.spec_to_u16(),
    {
        let mut bits: u16 = 0;
        if self.content_is_inline {
            bits = bits | 1;
            assert(bits == 1) by (bit_vector)
                requires
                    bits == 0u16 | 1u16,
            ;
        }
        let bi = bits;
        if self.expiry_set {
            bits = bits | (1u16 << 1u16);
            assert(bits == bi + 2) by (bit_vector)
                requires
                    bits == bi | (1u16 << 1u16),
                    bi <= 1,
            ;
        }
        let re = self.reply_eligibility.to_bits() as u16;
        let b0 = bits;
        bits = bits | (re << 2u16);
        assert(bits == b0 + 4 * re) by (bit_vector)
            requires
                b0 <= 3,
                re <= 2,
                bits == b0 | (re << 2u16),
        ;
        bits
    }

    pub fn from_u16(bits: u16) -> (r: Self)
        ensures
            r == Self::spec_from_u16(bits),
    {
        assert((1u16 << 1u16) == 2u16) by (bit_vector);
        assert(0b11u16 == 3u16);
        StubFlags {
            content_is_inline: bits & 1 != 0,
            expiry_set: bits & (1u16 << 1u16) != 0,
            reply_eligibility: ReplyEligibility::from_bits(((bits >> 2u16) & 0b11u16) as u8),
        }
    }
}

/// Reading flags back from their 16-bit form gives the flags that were
/// written.
pub proof fn lemma_flags_roundtrip(f: StubFlags)
    ensures
        StubFlags::spec_from_u16(f.spec_to_u16()) == f,
{
    let i: u16 = if f.content_is_inline {
        1
    } else {
        0
    };
    let e: u16 = if f.expiry_set {
        2
    } else {
        0
    };
    let c: u16 = f.reply_eligibility.spec_code() as u16;
    let x = f.spec_to_u16();
    assert(x == i + e + 4 * c);
    assert((x & 1u16 != 0) == (i == 1) && (x & 2u16 != 0) == (e == 2) && ((x >> 2u16) & 3u16)
        == c) by (bit_vector)
        requires
            i == 0 || i == 1,
            e == 0 || e == 2,
            c <= 2,
            x == i + e + 4 * c,
    ;
    assert((c as u8) & 3u8 == c as u8) by (bit_vector)
        requires
            c <= 2,
    ;
}

/// The bytes of a list of 32-byte hashes, one after the other.
pub open spec fn flatten32(refs: Seq<[u8; 32]>) -> Seq<u8>
    decreases refs.len(),
{
    if refs.len() == 0 {
        Seq::empty()
    } else {
        flatten32(refs.drop_last()) + refs.last()@
    }
}

/// The concatenated bytes have 32 bytes per hash, and chunk `i` is hash `i`.
pub proof fn lemma_flatten32(refs: Seq<[u8; 32]>)
    ensures
        flatten32(refs).len() == 32 * refs.len(),
        forall|i: int|
            0 <= i < refs.len() ==> #[trigger] flatten32(refs).subrange(32 * i, 32 * i + 32)
                == refs[i]@,
    decreases refs.len(),
{
    if refs.len() > 0 {
        let prev = refs.drop_last();
        lemma_flatten32(prev);
        let f = flatten32(refs);
        assert forall|i: int| 0 <= i < refs.len() implies #[trigger] f.subrange(
            32 * i,
            32 * i + 32,
        ) == refs[i]@ by {
            if i < refs.len() - 1 {
                assert(f.subrange(32 * i, 32 * i + 32) =~= flatten32(prev).subrange(
                    32 * i,
                    32 * i + 32,
                ));
                assert(prev[i] == refs[i]);
            } else {
                assert(f.subrange(32 * i, 32 * i + 32) =~= refs.last()@);
            }
        }
    }
}

/// A byte sequence cut into 32-byte chunks concatenates back to itself.
pub proof fn lemma_flatten32_chunks(refs: Seq<[u8; 32]>, s: Seq<u8>)
    requires
        s.len() == 32 * refs.len(),
        forall|i: int| 0 <= i < refs.len() ==> #[trigger] refs[i]@ == s.subrange(32 * i, 32 * i + 32),
    ensures
        flatten32(refs) == s,
    decreases refs.len(),
{
    if refs.len() > 0 {
        let n = refs.len() - 1;
        let prev = refs.drop_last();
        let sp = s.subrange(0, 32 * n);
        assert forall|i: int| 0 <= i < prev.len() implies #[trigger] prev[i]@ == sp.subrange(
            32 * i,
            32 * i + 32,
        ) by {
            assert(prev[i] == refs[i]);
            assert(sp.subrange(32 * i, 32 * i + 32) =~= s.subrange(32 * i, 32 * i + 32));
        }
        lemma_flatten32_chunks(prev, sp);
        assert(refs[n]@ == s.subrange(32 * n, 32 * n + 32));
        assert(flatten32(refs) =~= s);
    }
}

/// Branch vector — identifies which branch this stub belongs to.
#[derive(Debug, Clone, PartialEq, Eq)]
pub struct BranchVector {
    /// Hash of parent stub (all zeros if root stub).
    pub parent_hash: [u8; 32],
    /// Hashes of explicitly referenced stubs.
    pub explicit_refs: Vec<[u8; 32]>,
}

impl BranchVector {
    /// The serialized form: the parent hash, then each explicit reference.
    pub open spec fn spec_bytes(&self) -> Seq<u8> {
        self.parent_hash@ + flatten32(self.explicit_refs@)
    }

    /// A root branch vector has an all-zero parent hash.
    pub open spec fn spec_is_root(&self) -> bool {
        self.parent_hash@ == zeros32()
    }

    /// Whether `from_bytes` accepts `data`: a parent hash followed by whole
    /// 32-byte references.
    pub open spec fn spec_parses(data: Seq<u8>) -> bool {
        data.len() >= 32 && (data.len() - 32) % 32 == 0
    }

    /// Whether this branch vector is what `from_bytes` reads from `data`.
    pub open spec fn spec_decodes_from(&self, data: Seq<u8>) -> bool {
        &&& self.parent_hash@ == data.subrange(0, 32)
        &&& self.explicit_refs@.len() == (data.len() - 32) / 32
        &&& forall|i: int|
            0 <= i < self.explicit_refs@.len() ==> #[trigger] self.explicit_refs@[i]@
                == data.subrange(32 + 32 * i, 64 + 32 * i)
    }

    pub fn root() -> (r: Self)
        ensures
            r.parent_hash@ == zeros32(),
            r.explicit_refs@.len() == 0,
    {
        BranchVector { parent_hash: zero32(), explicit_refs: Vec::new() }
    }

    pub fn reply(parent_hash: [u8; 32]) -> (r: Self)
        ensures
            r.parent_hash == parent_hash,
            r.explicit_refs@.len() == 0,
    {
        BranchVector { parent_hash, explicit_refs: Vec::new() }
    }

    pub fn is_root(&self) -> (r: bool)
        ensures
            r == self.spec_is_root(),
    {
        is_zero32(&self.parent_hash)
    }

    /// Serialize to bytes for inclusion in stub.
    pub fn to_bytes(&self) -> (r: Vec<u8>)
        ensures
            r@ == self.spec_bytes(),
    {
        let mut buf: Vec<u8> = Vec::new();
        append_bytes(&mut buf, &self.parent_hash);
        let n = self.explicit_refs.len();
        let mut i: usize = 0;
        while i < n
            invariant
                n == self.explicit_refs@.len(),
                0 <= i <= n,
                buf@ == self.parent_hash@ + flatten32(self.explicit_refs@.take(i as int)),
            decreases n - i,
        {
            append_bytes(&mut buf, &self.explicit_refs[i]);
            assert(self.explicit_refs@.take(i + 1).drop_last() =~= self.explicit_refs@.take(
                i as int,
            ));
            i += 1;
        }
        assert(self.explicit_refs@.take(n as int) =~= self.explicit_refs@);
        buf
    }

    /// Deserialize from bytes.
    pub fn from_bytes(data: &[u8]) -> (r: Result<Self, StubError>)
        ensures
            r is Ok <==> Self::spec_parses(data@),
            r matches Ok(bv) ==> bv.spec_decodes_from(data@),
            r matches Err(e) ==> e is Deserialize,
    {
        let n = data.len();
        if n < 32 {
            return Err(StubError::Deserialize("branch vector too short".to_string()));
        }
        let parent_hash = array32_at(data, 0);
        let rem = n - 32;
        if rem % 32 != 0 {
            return Err(
                StubError::Deserialize(
                    "branch vector explicit_refs not aligned to 32 bytes".to_string(),
                ),
            );
        }
        let count = rem / 32;
        let mut explicit_refs: Vec<[u8; 32]> = Vec::new();
        let mut i: usize = 0;
        while i < count
            invariant
                n == data@.len(),
                32 + 32 * count == n,
                0 <= i <= count,
                explicit_refs@.len() == i,
                forall|k: int|
                    0 <= k < i ==> #[trigger] explicit_refs@[k]@ == data@.subrange(
                        32 + 32 * k,
                        64 + 32 * k,
                    ),
            decreases count - i,
        {
            let chunk = array32_at(data, 32 + 32 * i);
            explicit_refs.push(chunk);
            i += 1;
        }
        Ok(BranchVector { parent_hash, explicit_refs })
    }
}

/// Reading a branch vector back from its bytes gives the same parent and
/// references.
pub proof fn lemma_branch_vector_roundtrip(bv: BranchVector)
    ensures
        BranchVector::spec_parses(bv.spec_bytes()),
        bv.spec_decodes_from(bv.spec_bytes()),
{
    let refs = bv.explicit_refs@;
    lemma_flatten32(refs);
    let b = bv.spec_bytes();
    assert(b.subrange(0, 32) =~= bv.parent_hash@);
    assert forall|i: int| 0 <= i < refs.len() implies #[trigger] refs[i]@ == b.subrange(
        32 + 32 * i,
        64 + 32 * i,
    ) by {
        assert(b.subrange(32 + 32 * i, 64 + 32 * i) =~= flatten32(refs).subrange(
            32 * i,
            32 * i + 32,
        ));
    }
}

/// Two branch vectors that decode from the same bytes are equal.
pub proof fn lemma_branch_vector_decoding_unique(a: BranchVector, b: BranchVector, data: Seq<u8>)
    requires
        a.spec_decodes_from(data),
        b.spec_decodes_from(data),
    ensures
        a.parent_hash == b.parent_hash,
        a.explicit_refs@ == b.explicit_refs@,
{
    assert(a.parent_hash =~= b.parent_hash);
    assert forall|i: int| 0 <= i < a.explicit_refs@.len() implies a.explicit_refs@[i]
        == b.explicit_refs@[i] by {
        assert(a.explicit_refs@[i]@ == b.explicit_refs@[i]@);
        assert(a.explicit_refs@[i] =~= b.explicit_refs@[i]);
    }
    assert(a.explicit_refs@ =~= b.explicit_refs@);
}

/// Bytes that decode as a branch vector are exactly that vector's encoding.
pub proof fn lemma_branch_vector_canonical(bv: BranchVector, data: Seq<u8>)
    requires
        BranchVector::spec_parses(data),
        bv.spec_decodes_from(data),
    ensures
        bv.spec_bytes() == data,
{
    let refs = bv.explicit_refs@;
    let rest = data.subrange(32, data.len() as int);
    assert forall|i: int| 0 <= i < refs.len() implies #[trigger] refs[i]@ == rest.subrange(
        32 * i,
        32 * i + 32,
    ) by {
        assert(rest.subrange(32 * i, 32 * i + 32) =~= data.subrange(32 + 32 * i, 64 + 32 * i));
    }
    lemma_flatten32_chunks(refs, rest);
    assert(bv.spec_bytes() =~= data);
}

/// A Pulse stub — the atomic unit of a speech act.
/// Immutable from creation.
#[derive(Debug, Clone)]
pub struct Stub {
    /// BLAKE3 hash of canonical content.
    pub content_hash: [u8; 32],
    /// Author's Ed25519 public key.
    pub author_pubkey: [u8; 32],
    /// Ed25519 signature over (content_hash + timestamp + branch_vector_bytes).
    pub signature: [u8; 64],
    /// Unix epoch, millisecond precision.
    pub timestamp: u64,
    /// Flags (inline, expiry, reply eligibility).
    pub flags: StubFlags,
    /// Branch vector (variable length, max 128 bytes).
    pub branch_vector: BranchVector,
    /// Content reference hash (all zeros if inline).
    pub content_ref: [u8; 32],
    /// Inline content (LZ4 compressed UTF-8). Empty if content_ref is used.
    pub inline_content: Vec<u8>,
}

/// What `Stub::inline_text` returns, as a model: `None` for an error,
/// `Some(None)` for a stub without inline text, `Some(Some(text))` for its
/// text.
pub open spec fn spec_inline_text(s: Stub) -> Option<Option<Seq<char>>> {
    if !s.flags.content_is_inline || s.inline_content@.len() == 0 {
        Some(None)
    } else {
        match crate::compression::decompressed(s.inline_content@) {
            None => None,
            Some(d) => if vstd::utf8::valid_utf8(d) {
                Some(Some(vstd::utf8::decode_utf8(d)))
            } else {
                None
            },
        }
    }
}

impl Stub {
    /// The bytes that the author signs: content hash, timestamp, branch
    /// vector.
    pub open spec fn spec_signed_bytes(&self) -> Seq<u8> {
        self.content_hash@ + be64(self.timestamp) + self.branch_vector.spec_bytes()
    }

    /// The branch a stub belongs to: its own hash for a root stub, else its
    /// parent's hash.
    pub open spec fn spec_branch_id(&self) -> [u8; 32] {
        if self.branch_vector.spec_is_root() {
            self.content_hash
        } else {
            self.branch_vector.parent_hash
        }
    }

    /// The binary encoding of the stub.
    pub open spec fn spec_bytes(&self) -> Seq<u8> {
        let bv = self.branch_vector.spec_bytes();
        self.content_hash@ + self.author_pubkey@ + self.signature@ + be64(self.timestamp) + be16(
            self.flags.spec_to_u16(),
        ) + be16(bv.len() as u16) + bv + self.content_ref@ + be16(
            self.inline_content@.len() as u16,
        ) + self.inline_content@
    }

    /// The branch vector length field of an encoded stub.
    pub open spec fn spec_bv_len(data: Seq<u8>) -> int {
        read_be16(data.subrange(138, 140)) as int
    }

    /// The inline content length field of an encoded stub.
    pub open spec fn spec_ic_len(data: Seq<u8>) -> int {
        let off = 140 + Self::spec_bv_len(data);
        read_be16(data.subrange(off + 32, off + 34)) as int
    }

    /// Whether `from_bytes` accepts `data`.
    pub open spec fn spec_parses(data: Seq<u8>) -> bool {
        let off = 140 + Self::spec_bv_len(data);
        &&& data.len() >= 172
        &&& Self::spec_bv_len(data) <= MAX_BRANCH_VECTOR_LEN
        &&& data.len() >= off + 34
        &&& BranchVector::spec_parses(data.subrange(140, off))
        &&& data.len() >= off + 34 + Self::spec_ic_len(data)
    }

    /// Whether this stub is what `from_bytes` reads from `data`.
    pub open spec fn spec_decodes_from(&self, data: Seq<u8>) -> bool {
        let off = 140 + Self::spec_bv_len(data);
        &&& self.content_hash@ == data.subrange(0, 32)
        &&& self.author_pubkey@ == data.subrange(32, 64)
        &&& self.signature@ == data.subrange(64, 128)
        &&& self.timestamp == read_be64(data.subrange(128, 136))
        &&& self.flags == StubFlags::spec_from_u16(read_be16(data.subrange(136, 138)))
        &&& self.branch_vector.spec_decodes_from(data.subrange(140, off))
        &&& self.content_ref@ == data.subrange(off, off + 32)
        &&& self.inline_content@ == data.subrange(off + 34, off + 34 + Self::spec_ic_len(data))
    }

    /// Get the content hash as a BLAKE3 Hash.
    pub fn content_hash(&self) -> blake3::Hash {
        blake3_hash_from_bytes(self.content_hash)
    }

    /// Get the branch this stub belongs to.
    /// For root stubs, the branch ID is the stub's own content_hash.
    /// For reply stubs, it is the parent hash.
    pub fn branch_id(&self) -> (r: [u8; 32])
        ensures
            r == self.spec_branch_id(),
    {
        if self.branch_vector.is_root() {
            self.content_hash
        } else {
            self.branch_vector.parent_hash
        }
    }

    /// Decompress and return the inline content as a UTF-8 string.
    /// Returns None if this stub uses a content_ref instead.
    pub fn inline_text(&self) -> (r: Result<Option<String>, StubError>)
        ensures
            match spec_inline_text(*self) {
                None => r matches Err(StubError::Deserialize(_)),
                Some(None) => r matches Ok(None),
                Some(Some(t)) => r matches Ok(Some(s)) && s@ == t,
            },
    {
        if !self.flags.content_is_inline || self.inline_content.len() == 0 {
            return Ok(None);
        }
        let decompressed = match compression::decompress(self.inline_content.as_slice()) {
            Ok(d) => d,
            Err(e) => return Err(StubError::Deserialize(e.message())),
        };
        match string_from_utf8(decompressed) {
            Ok(text) => Ok(Some(text)),
            Err(e) => Err(StubError::Deserialize(utf8_error_text(&e))),
        }
    }

    /// Compute the bytes that are signed: content_hash + timestamp + branch_vector_bytes.
    pub fn signed_bytes(&self) -> (r: Vec<u8>)
        ensures
            r@ == self.spec_signed_bytes(),
    {
        let mut buf: Vec<u8> = Vec::new();
        append_bytes(&mut buf, &self.content_hash);
        push_be64(&mut buf, self.timestamp);
        let bv = self.branch_vector.to_bytes();
        append_bytes(&mut buf, bv.as_slice());
        buf
    }

    /// Serialize to the binary format.
    pub fn to_bytes(&self) -> (r: Result<Vec<u8>, StubError>)
        ensures
            self.branch_vector.spec_bytes().len() > MAX_BRANCH_VECTOR_LEN ==> (r matches Err(
                StubError::BranchVectorTooLong(n),
            ) && n == self.branch_vector.spec_bytes().len()),
            self.branch_vector.spec_bytes().len() <= MAX_BRANCH_VECTOR_LEN ==> (r matches Ok(b)
                && b@ == self.spec_bytes()),
    {
        let bv_bytes = self.branch_vector.to_bytes();
        if bv_bytes.len() > MAX_BRANCH_VECTOR_LEN {
            return Err(StubError::BranchVectorTooLong(bv_bytes.len()));
        }
        let mut buf: Vec<u8> = Vec::with_capacity(320);
        append_bytes(&mut buf, &self.content_hash);
        append_bytes(&mut buf, &self.author_pubkey);
        append_bytes(&mut buf, &self.signature);
        push_be64(&mut buf, self.timestamp);
        push_be16(&mut buf, self.flags.to_u16());
        push_be16(&mut buf, bv_bytes.len() as u16);
        append_bytes(&mut buf, bv_bytes.as_slice());
        append_bytes(&mut buf, &self.content_ref);
        push_be16(&mut buf, self.inline_content.len() as u16);
        append_bytes(&mut buf, self.inline_content.as_slice());
        Ok(buf)
    }

    /// Deserialize from binary format.
    pub fn from_bytes(data: &[u8]) -> (r: Result<Self, StubError>)
        ensures
            r is Ok <==> Self::spec_parses(data@),
            r matches Ok(s) ==> s.spec_decodes_from(data@),
            data@.len() >= 172 && Self::spec_bv_len(data@) > MAX_BRANCH_VECTOR_LEN ==> (r matches Err(
                StubError::BranchVectorTooLong(n),
            ) && n == Self::spec_bv_len(data@)),
            !(data@.len() >= 172 && Self::spec_bv_len(data@) > MAX_BRANCH_VECTOR_LEN) ==> (r matches Err(
                e,
            ) ==> e is Deserialize),
    {
        if data.len() < 172 {
            return Err(StubError::Deserialize("stub too short".to_string()));
        }
        let content_hash = array32_at(data, 0);
        let author_pubkey = array32_at(data, 32);
        let signature = array64_at(data, 64);
        let timestamp = read_be64_at(data, 128);
        let flags = StubFlags::from_u16(read_be16_at(data, 136));
        let bv_len = read_be16_at(data, 138) as usize;
        if bv_len > MAX_BRANCH_VECTOR_LEN {
            return Err(StubError::BranchVectorTooLong(bv_len));
        }
        if data.len() < 140 + bv_len + 34 {
            return Err(StubError::Deserialize("stub truncated at branch vector".to_string()));
        }
        let branch_vector = match BranchVector::from_bytes(&data[140..140 + bv_len]) {
            Ok(bv) => bv,
            Err(e) => return Err(e),
        };
        let offset = 140 + bv_len;
        let content_ref = array32_at(data, offset);
        let ic_offset = offset + 32;
        if data.len() < ic_offset + 2 {
            return Err(
                StubError::Deserialize("stub truncated at inline content length".to_string()),
            );
        }
        let ic_len = read_be16_at(data, ic_offset) as usize;
        if data.len() < ic_offset + 2 + ic_len {
            return Err(StubError::Deserialize("stub truncated at inline content".to_string()));
        }
        let inline_content = vstd::slice::slice_to_vec(&data[ic_offset + 2..ic_offset + 2 + ic_len]);
        Ok(Stub {
            content_hash,
            author_pubkey,
            signature,
            timestamp,
            flags,
            branch_vector,
            content_ref,
            inline_content,
        })
    }
}

/// Decoding the encoding of a stub gives the stub back, when its branch
/// vector fits the limit and its inline content fits the 16-bit length
/// field.
pub proof fn lemma_stub_roundtrip(s: Stub)
    requires
        s.branch_vector.spec_bytes().len() <= MAX_BRANCH_VECTOR_LEN,
        s.inline_content@.len() <= u16::MAX,
    ensures
        Stub::spec_parses(s.spec_bytes()),
        s.spec_decodes_from(s.spec_bytes()),
{
    let bv = s.branch_vector.spec_bytes();
    let n: int = bv.len() as int;
    let m: int = s.inline_content@.len() as int;
    let d = s.spec_bytes();
    lemma_be16_roundtrip(s.flags.spec_to_u16());
    lemma_be16_roundtrip(n as u16);
    lemma_be16_roundtrip(m as u16);
    lemma_be64_roundtrip(s.timestamp);
    lemma_flags_roundtrip(s.flags);
    lemma_branch_vector_roundtrip(s.branch_vector);
    assert(d.len() == 174 + n + m);
    assert(d.subrange(0, 32) =~= s.content_hash@);
    assert(d.subrange(32, 64) =~= s.author_pubkey@);
    assert(d.subrange(64, 128) =~= s.signature@);
    assert(d.subrange(128, 136) =~= be64(s.timestamp));
    assert(d.subrange(136, 138) =~= be16(s.flags.spec_to_u16()));
    assert(d.subrange(138, 140) =~= be16(n as u16));
    assert(Stub::spec_bv_len(d) == n);
    assert(d.subrange(140, 140 + n) =~= bv);
    assert(d.subrange(140 + n, 172 + n) =~= s.content_ref@);
    assert(d.subrange(172 + n, 174 + n) =~= be16(m as u16));
    assert(Stub::spec_ic_len(d) == m);
    assert(d.subrange(174 + n, 174 + n + m) =~= s.inline_content@);
}

/// Compute the BLAKE3 content hash for text content.
/// Text-only hashing: same text = same hash regardless of author or time.
/// This enables content-addressable deduplication — the network stores
/// the text once and tracks multiple signers separately.
pub fn hash_content(text: &str) -> (r: [u8; 32])
    ensures
        r@ == blake3_digest(text.spec_bytes()),
{
    blake3_hash(text.as_bytes())
}

} // verus!
