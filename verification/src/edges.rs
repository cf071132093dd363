//! Signed social graph edges: trust, watch and silence.
//!
//! A trust weight is an IEEE-754 single-precision number, passed and held
//! as its bit pattern (`f32::to_bits`). A weight must be a number from 0.0
//! to 1.0; NaN is refused. Edges are timestamped with the system clock in
//! milliseconds since the Unix epoch; a clock that reads before the epoch
//! counts as time 0.
use vstd::prelude::*;

use crate::bytes::{append_bytes, be32, be64, push_be32, push_be64, zero32};
use crate::ext_ed25519::{
    ed25519_key_decodes, ed25519_public_key, ed25519_signature, ed25519_verifies,
};
use crate::ext_std::unix_millis_now;
use crate::graph_store::{contains_key, upserted, without_key, Edge, EdgeType, GraphStore, GraphStoreError};
use crate::keypair::{Identity, PublicIdentity, Signature};

verus! {

/// Errors of building and storing edges.
#[derive(Debug)]
pub enum EdgeError {
    Store(GraphStoreError),
    /// The bit pattern of the refused weight.
    InvalidWeight(u32),
    SelfEdge,
}

/// Whether the single-precision value with bit pattern `bits` is a number
/// from 0.0 to 1.0: negative zero, or a non-negative number up to 1.0
/// (whose bit patterns are ordered like the numbers). NaN is not.
pub open spec fn weight_accepted(bits: u32) -> bool {
    bits == 0x8000_0000u32 || bits <= 0x3f80_0000u32
}

/// The bytes an edge's source signs: source, target, type code, topic,
/// weight, timestamp.
pub open spec fn edge_payload(e: Edge) -> Seq<u8> {
    e.source_pubkey@ + e.target_pubkey@ + seq![e.edge_type.spec_code()] + e.topic_scope@ + be32(
        e.weight_bits,
    ) + be64(e.timestamp)
}

/// Whether `e` is the edge that `secret` signs to `target` with the given
/// type, topic, weight and timestamp.
pub open spec fn is_signed_edge(
    e: Edge,
    secret: Seq<u8>,
    target: [u8; 32],
    edge_type: EdgeType,
    topic_scope: [u8; 32],
    weight_bits: u32,
    timestamp: u64,
) -> bool {
    &&& e.source_pubkey@ == ed25519_public_key(secret)
    &&& e.target_pubkey == target
    &&& e.edge_type == edge_type
    &&& e.topic_scope == topic_scope
    &&& e.weight_bits == weight_bits
    &&& e.timestamp == timestamp
    &&& e.signature@ == ed25519_signature(secret, edge_payload(e))
}

/// Whether an edge's signature checks out: the source key decodes and the
/// signature verifies over the payload.
pub open spec fn edge_signature_valid(e: Edge) -> bool {
    ed25519_key_decodes(e.source_pubkey@) && ed25519_verifies(
        e.source_pubkey@,
        edge_payload(e),
        e.signature@,
    )
}

/// Whether the single-precision weight with bit pattern `bits` is a number
/// from 0.0 to 1.0.
pub fn weight_in_range(bits: u32) -> (r: bool)
    ensures
        r == weight_accepted(bits),
{
    bits == 0x8000_0000u32 || bits <= 0x3f80_0000u32
}

/// The bytes an edge's source signs.
pub fn edge_payload_bytes(e: &Edge) -> (r: Vec<u8>)
    ensures
        r@ == edge_payload(*e),
{
    let mut payload: Vec<u8> = Vec::with_capacity(109);
    append_bytes(&mut payload, &e.source_pubkey);
    append_bytes(&mut payload, &e.target_pubkey);
    payload.push(e.edge_type.to_u8());
    append_bytes(&mut payload, &e.topic_scope);
    push_be32(&mut payload, e.weight_bits);
    push_be64(&mut payload, e.timestamp);
    payload
}

/// Sign an edge from `identity` to `target` at `timestamp`.
pub fn sign_edge_at(
    identity: &Identity,
    target: [u8; 32],
    edge_type: EdgeType,
    topic_scope: [u8; 32],
    weight_bits: u32,
    timestamp: u64,
) -> (r: Edge)
    ensures
        is_signed_edge(r, identity@, target, edge_type, topic_scope, weight_bits, timestamp),
        edge_signature_valid(r),
{
    let source = identity.public_key_bytes();
    let mut edge = Edge {
        source_pubkey: source,
        target_pubkey: target,
        edge_type,
        topic_scope,
        weight_bits,
        timestamp,
        signature: [0u8; 64],
    };
    let payload = edge_payload_bytes(&edge);
    let sig = identity.sign(payload.as_slice());
    edge.signature = sig.to_bytes();
    edge
}

/// Create a signed trust edge. The weight must lie between 0.0 and 1.0, and
/// the target must not be the identity itself.
pub fn create_trust_edge(
    identity: &Identity,
    target: &[u8; 32],
    topic_scope: [u8; 32],
    weight_bits: u32,
) -> (r: Result<Edge, EdgeError>)
    ensures
        !weight_accepted(weight_bits) ==> (r matches Err(EdgeError::InvalidWeight(w)) && w
            == weight_bits),
        weight_accepted(weight_bits) && ed25519_public_key(identity@) == target@ ==> r matches Err(
            EdgeError::SelfEdge,
        ),
        weight_accepted(weight_bits) && ed25519_public_key(identity@) != target@ ==> (r matches Ok(e)
            && is_signed_edge(
            e,
            identity@,
            *target,
            EdgeType::Trust,
            topic_scope,
            weight_bits,
            e.timestamp,
        ) && edge_signature_valid(e)),
{
    if !weight_in_range(weight_bits) {
        return Err(EdgeError::InvalidWeight(weight_bits));
    }
    let source = identity.public_key_bytes();
    if crate::bytes::bytes32_eq(&source, target) {
        return Err(EdgeError::SelfEdge);
    }
    let now = match unix_millis_now() {
        Some(t) => t,
        None => 0,
    };
    Ok(sign_edge_at(identity, *target, EdgeType::Trust, topic_scope, weight_bits, now))
}

/// Create a signed watch edge (universal topic, weight 0.0).
pub fn create_watch_edge(identity: &Identity, target: &[u8; 32]) -> (r: Result<Edge, EdgeError>)
    ensures
        ed25519_public_key(identity@) == target@ ==> r matches Err(EdgeError::SelfEdge),
        ed25519_public_key(identity@) != target@ ==> (r matches Ok(e) && is_signed_edge(
            e,
            identity@,
            *target,
            EdgeType::Watch,
            e.topic_scope,
            0,
            e.timestamp,
        ) && e.topic_scope@ == crate::bytes::zeros32() && edge_signature_valid(e)),
{
    let source = identity.public_key_bytes();
    if crate::bytes::bytes32_eq(&source, target) {
        return Err(EdgeError::SelfEdge);
    }
    let now = match unix_millis_now() {
        Some(t) => t,
        None => 0,
    };
    Ok(sign_edge_at(identity, *target, EdgeType::Watch, zero32(), 0, now))
}

/// Create a signed silence edge (universal topic, weight 0.0).
pub fn create_silence_edge(identity: &Identity, target: &[u8; 32]) -> (r: Result<Edge, EdgeError>)
    ensures
        ed25519_public_key(identity@) == target@ ==> r matches Err(EdgeError::SelfEdge),
        ed25519_public_key(identity@) != target@ ==> (r matches Ok(e) && is_signed_edge(
            e,
            identity@,
            *target,
            EdgeType::Silence,
            e.topic_scope,
            0,
            e.timestamp,
        ) && e.topic_scope@ == crate::bytes::zeros32() && edge_signature_valid(e)),
{
    let source = identity.public_key_bytes();
    if crate::bytes::bytes32_eq(&source, target) {
        return Err(EdgeError::SelfEdge);
    }
    let now = match unix_millis_now() {
        Some(t) => t,
        None => 0,
    };
    Ok(sign_edge_at(identity, *target, EdgeType::Silence, zero32(), 0, now))
}

/// Store an edge locally (replacing one with the same key).
pub fn store_edge(store: &mut GraphStore, edge: &Edge) -> (r: Result<(), EdgeError>)
    ensures
        r is Ok,
        final(store)@ == upserted(old(store)@, *edge),
{
    match store.put_edge(edge) {
        Ok(()) => Ok(()),
        Err(e) => Err(EdgeError::Store(e)),
    }
}

/// Revoke an edge (remove from local store); returns whether it was there.
pub fn revoke_edge(
    store: &mut GraphStore,
    source: &[u8; 32],
    target: &[u8; 32],
    edge_type: EdgeType,
    topic_scope: &[u8; 32],
) -> (r: Result<bool, EdgeError>)
    ensures
        r matches Ok(b) && b == contains_key(old(store)@, *source, *target, edge_type, *topic_scope),
        final(store)@ == without_key(old(store)@, *source, *target, edge_type, *topic_scope),
{
    match store.remove_edge(source, target, edge_type, topic_scope) {
        Ok(b) => Ok(b),
        Err(e) => Err(EdgeError::Store(e)),
    }
}

/// Verify an edge's signature.
pub fn verify_edge_signature(edge: &Edge) -> (r: bool)
    ensures
        r == edge_signature_valid(*edge),
{
    let pubkey = match PublicIdentity::from_bytes(&edge.source_pubkey) {
        Ok(p) => p,
        Err(_) => return false,
    };
    let payload = edge_payload_bytes(edge);
    let sig = Signature::from_bytes(&edge.signature);
    pubkey.verify(payload.as_slice(), &sig).is_ok()
}

} // verus!
