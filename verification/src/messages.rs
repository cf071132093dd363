//! Messages exchanged over GossipSub and request-response. Their JSON form
//! is written and read at the network's edge.
use vstd::prelude::*;

verus! {

/// Messages exchanged over GossipSub and request-response.
#[derive(Debug)]
pub enum PulseMessage {
    /// A new stub has been created and should be propagated.
    NewStub {
        /// Serialized stub bytes.
        stub_bytes: Vec<u8>,
    },
    /// A social graph edge has been created or updated.
    EdgeUpdate {
        /// JSON-serialized edge.
        edge_json: String,
    },
    /// Request a stub by content hash.
    StubRequest { content_hash: [u8; 32] },
    /// Response with a requested stub.
    StubResponse {
        /// Serialized stub bytes, or empty if not found.
        stub_bytes: Vec<u8>,
    },
    /// Profile metadata update (display name, avatar).
    ProfileUpdate {
        /// JSON-serialized ProfileMeta.
        profile_json: String,
    },
}

} // verus!
