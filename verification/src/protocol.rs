//! Names and limits of the Pulse network protocol.
use vstd::prelude::*;

verus! {

/// The GossipSub topic for all Pulse stub propagation.
pub const STUBS_TOPIC: &'static str = "pulse/stubs/v1";

/// The GossipSub topic for social graph edge updates.
pub const EDGES_TOPIC: &'static str = "pulse/edges/v1";

/// Protocol ID for direct stub request-response.
pub const STUB_REQUEST_PROTOCOL_NAME: &'static str = "/pulse/stub-request/1.0.0";

/// DHT protocol prefix.
pub const DHT_PROTOCOL: &'static str = "/pulse/kad/1.0.0";

/// How often to publish our address to DHT, in seconds.
pub const DHT_PUBLISH_INTERVAL_SECS: u64 = 300;

/// Gossipsub heartbeat interval, in seconds.
pub const GOSSIPSUB_HEARTBEAT_SECS: u64 = 1;

/// Maximum gossipsub message size (512KB — generous for MVP).
pub const MAX_MESSAGE_SIZE: usize = 524288;

} // verus!
