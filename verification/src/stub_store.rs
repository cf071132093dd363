//! The encoding of stubs for the content-addressed stub store: entries are
//! keyed by content hash and hold the stub's binary form.
use vstd::prelude::*;
use vstd::string::StringExecFns;

use crate::bytes::array32_at;
use crate::format::Stub;

verus! {

/// Errors of the stub store.
#[derive(Debug)]
pub enum StubStoreError {
    Db(String),
    Serialize(String),
    Deserialize(String),
    NotFound(String),
}

impl StubStoreError {
    /// The text of the error.
    pub open spec fn spec_message(&self) -> Seq<char> {
        match self {
            StubStoreError::Db(m) => "RocksDB error: "@ + m@,
            StubStoreError::Serialize(m) => "stub serialization error: "@ + m@,
            StubStoreError::Deserialize(m) => "stub deserialization error: "@ + m@,
            StubStoreError::NotFound(m) => "stub not found: "@ + m@,
        }
    }

    /// The text of the error.
    pub fn message(&self) -> (r: String)
        ensures
            r@ == self.spec_message(),
    {
        let (prefix, m) = match self {
            StubStoreError::Db(m) => ("RocksDB error: ", m),
            StubStoreError::Serialize(m) => ("stub serialization error: ", m),
            StubStoreError::Deserialize(m) => ("stub deserialization error: ", m),
            StubStoreError::NotFound(m) => ("stub not found: ", m),
        };
        let mut r = String::from_str(prefix);
        r.append(m.as_str());
        r
    }
}

/// The key and value under which a stub is stored: its content hash and
/// its binary form. A stub that cannot be encoded is refused.
pub fn stub_entry(stub: &Stub) -> (r: Result<([u8; 32], Vec<u8>), StubStoreError>)
    ensures
        stub.branch_vector.spec_bytes().len() <= crate::format::MAX_BRANCH_VECTOR_LEN ==> (r matches Ok(
            (k, v),
        ) && k == stub.content_hash && v@ == stub.spec_bytes()),
        stub.branch_vector.spec_bytes().len() > crate::format::MAX_BRANCH_VECTOR_LEN ==> (r matches Err(
            StubStoreError::Serialize(_),
        )),
{
    match stub.to_bytes() {
        Ok(bytes) => Ok((stub.content_hash, bytes)),
        Err(e) => Err(StubStoreError::Serialize(e.message())),
    }
}

/// The stub that a stored value holds.
pub fn decode_value(value: &[u8]) -> (r: Result<Stub, StubStoreError>)
    ensures
        r is Ok <==> Stub::spec_parses(value@),
        r matches Ok(s) ==> s.spec_decodes_from(value@),
        r matches Err(e) ==> e is Deserialize,
{
    match Stub::from_bytes(value) {
        Ok(s) => Ok(s),
        Err(e) => Err(StubStoreError::Deserialize(e.message())),
    }
}

/// The (content hash, stub) pair that a stored entry holds.
pub fn decode_entry(key: &[u8], value: &[u8]) -> (r: Result<([u8; 32], Stub), StubStoreError>)
    requires
        key@.len() == 32,
    ensures
        r is Ok <==> Stub::spec_parses(value@),
        r matches Ok((h, s)) ==> h@ == key@ && s.spec_decodes_from(value@),
        r matches Err(e) ==> e is Deserialize,
{
    let hash = array32_at(key, 0);
    assert(key@.subrange(0, 32) =~= key@);
    match decode_value(value) {
        Ok(s) => Ok((hash, s)),
        Err(e) => Err(e),
    }
}

} // verus!
