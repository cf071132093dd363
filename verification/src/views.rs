//! What the front end shows of stubs, profiles and the network, and the
//! reading of what it sends: hex keys and option names.
use vstd::prelude::*;
use vstd::string::{StringExecFns, StringSliceAdditionalSpecFns};

use crate::ext_hex::{hex_decode, hex_decoded, hex_encode, hex_lower};
use crate::decimal::{decimal, usize_to_decimal};
use crate::format::{spec_inline_text, ReplyEligibility, Stub};
use crate::feed::FeedItem;
use crate::graph_store::{Edge, EdgeType};
use crate::profile::ProfileMetrics;
use crate::profile_store::chars_of;

verus! {

/// A stub as the front end shows it.
#[derive(Debug)]
pub struct StubDto {
    pub content_hash: String,
    pub author_pubkey: String,
    pub author_short_id: String,
    pub author_display_name: Option<String>,
    pub timestamp: u64,
    pub text: Option<String>,
    pub is_root: bool,
    pub parent_hash: Option<String>,
    pub branch_id: String,
}

/// A profile as the front end shows it.
#[derive(Debug)]
pub struct ProfileDto {
    pub pubkey: String,
    pub short_id: String,
    pub display_name: Option<String>,
    pub trust_density: usize,
    pub watch_count: usize,
    pub silence_count: usize,
    pub built_upon_count: usize,
    pub stub_count: usize,
}

/// The state of the network node as the front end shows it.
#[derive(Debug)]
pub struct NetworkStatusDto {
    pub peer_count: usize,
    pub is_running: bool,
    pub local_peer_id: Option<String>,
    pub listen_addrs: Vec<String>,
}

/// A feed item as the front end shows it. The trust weight is the bit
/// pattern of the edge's single-precision weight.
#[derive(Debug)]
pub struct FeedItemView {
    /// `own`, `trust` or `watch`.
    pub item_type: String,
    pub stub: Option<StubDto>,
    pub content_hash: Option<String>,
    pub author_pubkey: Option<String>,
    pub author_short_id: Option<String>,
    pub author_display_name: Option<String>,
    pub timestamp: u64,
    pub trust_weight_bits: Option<u32>,
    pub branch_id: Option<String>,
}

/// An edge as the front end shows it. The weight is the bit pattern of the
/// edge's single-precision weight.
#[derive(Debug)]
pub struct EdgeView {
    pub source_pubkey: String,
    pub target_pubkey: String,
    pub edge_type: String,
    pub weight_bits: u32,
    pub timestamp: u64,
}

/// The text of a stub as shown: its inline text, when that decodes.
pub open spec fn shown_text(stub: Stub) -> Option<Seq<char>> {
    match spec_inline_text(stub) {
        Some(Some(t)) => Some(t),
        _ => None,
    }
}

/// Whether `d` is the view of `stub` with the author's display name
/// `name`: hex of its hash, author and branch, the author's short id (hex of
/// the first 8 bytes of the key), its timestamp, its shown text, whether it
/// is a root, and the hex of its parent for a reply.
pub open spec fn is_stub_view(d: StubDto, stub: Stub, name: Option<String>) -> bool {
    &&& d.content_hash@ == hex_lower(stub.content_hash@)
    &&& d.author_pubkey@ == hex_lower(stub.author_pubkey@)
    &&& d.author_short_id@ == hex_lower(stub.author_pubkey@.take(8))
    &&& d.author_display_name == name
    &&& d.timestamp == stub.timestamp
    &&& match d.text {
        Some(t) => shown_text(stub) == Some(t@),
        None => shown_text(stub) is None,
    }
    &&& d.is_root == stub.branch_vector.spec_is_root()
    &&& match d.parent_hash {
        Some(h) => !stub.branch_vector.spec_is_root() && h@ == hex_lower(
            stub.branch_vector.parent_hash@,
        ),
        None => stub.branch_vector.spec_is_root(),
    }
    &&& d.branch_id@ == hex_lower(stub.spec_branch_id()@)
}

/// The view of a stub, with its author's display name.
pub fn stub_dto(stub: &Stub, author_display_name: Option<String>) -> (r: StubDto)
    ensures
        is_stub_view(r, *stub, author_display_name),
{
    let short = &stub.author_pubkey.as_slice()[0..8];
    assert(short@ =~= stub.author_pubkey@.take(8));
    let text = match stub.inline_text() {
        Ok(Some(t)) => Some(t),
        _ => None,
    };
    let is_root = stub.branch_vector.is_root();
    let parent_hash = if is_root {
        None
    } else {
        Some(hex_encode(&stub.branch_vector.parent_hash))
    };
    let branch_id = stub.branch_id();
    StubDto {
        content_hash: hex_encode(&stub.content_hash),
        author_pubkey: hex_encode(&stub.author_pubkey),
        author_short_id: hex_encode(short),
        author_display_name,
        timestamp: stub.timestamp,
        text,
        is_root,
        parent_hash,
        branch_id: hex_encode(&branch_id),
    }
}

/// The name of a feed item's kind.
pub open spec fn item_type_name(item: FeedItem) -> Seq<char> {
    match item {
        FeedItem::OwnStub { .. } => "own"@,
        FeedItem::TrustStub { .. } => "trust"@,
        FeedItem::WatchHeader { .. } => "watch"@,
    }
}

/// The content hash, the author and the branch of a feed item.
pub open spec fn item_keys(item: FeedItem) -> ([u8; 32], [u8; 32], [u8; 32]) {
    match item {
        FeedItem::OwnStub { stub } => (stub.content_hash, stub.author_pubkey, stub.spec_branch_id()),
        FeedItem::TrustStub { stub, .. } => (
            stub.content_hash,
            stub.author_pubkey,
            stub.spec_branch_id(),
        ),
        FeedItem::WatchHeader { content_hash, author_pubkey, branch_id, .. } => (
            content_hash,
            author_pubkey,
            branch_id,
        ),
    }
}

/// The view of a feed item, with its author's display name: own and
/// trusted items carry the stub's view, trusted ones their weight too;
/// watch headers carry no stub.
pub fn feed_item_view(item: &FeedItem, author_display_name: Option<String>) -> (r: FeedItemView)
    ensures
        r.item_type@ == item_type_name(*item),
        r.content_hash matches Some(h) && h@ == hex_lower(item_keys(*item).0@),
        r.author_pubkey matches Some(a) && a@ == hex_lower(item_keys(*item).1@),
        r.author_short_id matches Some(a) && a@ == hex_lower(item_keys(*item).1@.take(8)),
        r.author_display_name == author_display_name,
        r.timestamp == item.spec_timestamp(),
        r.branch_id matches Some(b) && b@ == hex_lower(item_keys(*item).2@),
        r.trust_weight_bits == match *item {
            FeedItem::TrustStub { trust_weight_bits, .. } => Some(trust_weight_bits),
            _ => None,
        },
        match *item {
            FeedItem::OwnStub { stub } => r.stub matches Some(d) && is_stub_view(
                d,
                stub,
                author_display_name,
            ),
            FeedItem::TrustStub { stub, .. } => r.stub matches Some(d) && is_stub_view(
                d,
                stub,
                author_display_name,
            ),
            FeedItem::WatchHeader { .. } => r.stub is None,
        },
{
    match item {
        FeedItem::OwnStub { stub } => {
            let short = &stub.author_pubkey.as_slice()[0..8];
            assert(short@ =~= stub.author_pubkey@.take(8));
            let branch_id = stub.branch_id();
            FeedItemView {
                item_type: String::from_str("own"),
                stub: Some(stub_dto(stub, copy_name(&author_display_name))),
                content_hash: Some(hex_encode(&stub.content_hash)),
                author_pubkey: Some(hex_encode(&stub.author_pubkey)),
                author_short_id: Some(hex_encode(short)),
                author_display_name,
                timestamp: stub.timestamp,
                trust_weight_bits: None,
                branch_id: Some(hex_encode(&branch_id)),
            }
        },
        FeedItem::TrustStub { stub, trust_weight_bits } => {
            let short = &stub.author_pubkey.as_slice()[0..8];
            assert(short@ =~= stub.author_pubkey@.take(8));
            let branch_id = stub.branch_id();
            FeedItemView {
                item_type: String::from_str("trust"),
                stub: Some(stub_dto(stub, copy_name(&author_display_name))),
                content_hash: Some(hex_encode(&stub.content_hash)),
                author_pubkey: Some(hex_encode(&stub.author_pubkey)),
                author_short_id: Some(hex_encode(short)),
                author_display_name,
                timestamp: stub.timestamp,
                trust_weight_bits: Some(*trust_weight_bits),
                branch_id: Some(hex_encode(&branch_id)),
            }
        },
        FeedItem::WatchHeader { content_hash, author_pubkey, timestamp, branch_id } => {
            let short = &author_pubkey.as_slice()[0..8];
            assert(short@ =~= author_pubkey@.take(8));
            FeedItemView {
                item_type: String::from_str("watch"),
                stub: None,
                content_hash: Some(hex_encode(content_hash)),
                author_pubkey: Some(hex_encode(author_pubkey)),
                author_short_id: Some(hex_encode(short)),
                author_display_name,
                timestamp: *timestamp,
                trust_weight_bits: None,
                branch_id: Some(hex_encode(branch_id)),
            }
        },
    }
}

/// A copy of an optional name.
fn copy_name(name: &Option<String>) -> (r: Option<String>)
    ensures
        r == *name,
{
    match name {
        Some(n) => Some(n.clone()),
        None => None,
    }
}

/// The view of an edge.
pub fn edge_view(edge: &Edge) -> (r: EdgeView)
    ensures
        r.source_pubkey@ == hex_lower(edge.source_pubkey@),
        r.target_pubkey@ == hex_lower(edge.target_pubkey@),
        r.edge_type@ == match edge.edge_type {
            EdgeType::Trust => "trust"@,
            EdgeType::Watch => "watch"@,
            EdgeType::Silence => "silence"@,
        },
        r.weight_bits == edge.weight_bits,
        r.timestamp == edge.timestamp,
{
    EdgeView {
        source_pubkey: hex_encode(&edge.source_pubkey),
        target_pubkey: hex_encode(&edge.target_pubkey),
        edge_type: edge_type_name(edge.edge_type),
        weight_bits: edge.weight_bits,
        timestamp: edge.timestamp,
    }
}

/// The view of a profile: its key, display name and metrics.
pub fn profile_dto(pubkey: &[u8; 32], display_name: Option<String>, metrics: ProfileMetrics) -> (r:
    ProfileDto)
    ensures
        r.pubkey@ == hex_lower(pubkey@),
        r.short_id@ == hex_lower(pubkey@.take(8)),
        r.display_name == display_name,
        r.trust_density == metrics.trust_density,
        r.watch_count == metrics.watch_count,
        r.silence_count == metrics.silence_count,
        r.built_upon_count == metrics.built_upon_count,
        r.stub_count == metrics.stub_count,
{
    let short = &pubkey.as_slice()[0..8];
    assert(short@ =~= pubkey@.take(8));
    ProfileDto {
        pubkey: hex_encode(pubkey),
        short_id: hex_encode(short),
        display_name,
        trust_density: metrics.trust_density,
        watch_count: metrics.watch_count,
        silence_count: metrics.silence_count,
        built_upon_count: metrics.built_upon_count,
        stub_count: metrics.stub_count,
    }
}

/// The status shown while no node runs.
pub fn stopped_network_status() -> (r: NetworkStatusDto)
    ensures
        r.peer_count == 0,
        !r.is_running,
        r.local_peer_id is None,
        r.listen_addrs@.len() == 0,
{
    NetworkStatusDto {
        peer_count: 0,
        is_running: false,
        local_peer_id: None,
        listen_addrs: Vec::new(),
    }
}

/// Read a 32-byte key (or hash) from hex text. Text that is no hex, or hex
/// of another length, is refused with a message.
pub fn parse_pubkey(hex_str: &str) -> (r: Result<[u8; 32], String>)
    ensures
        r is Ok <==> (hex_decoded(hex_str.spec_bytes()) matches Some(b) && b.len() == 32),
        r matches Ok(k) ==> hex_decoded(hex_str.spec_bytes()) == Some(k@),
        r matches Err(m) ==> (hex_decoded(hex_str.spec_bytes()) matches Some(b) ==> m@
            == "Expected 32 bytes, got "@ + decimal(b.len())),
{
    let bytes = match hex_decode(hex_str) {
        Ok(b) => b,
        Err(e) => {
            let mut m = String::from_str("Invalid hex: ");
            m.append(crate::ext_hex::hex_error_text(&e).as_str());
            return Err(m);
        },
    };
    if bytes.len() != 32 {
        let mut m = String::from_str("Expected 32 bytes, got ");
        m.append(usize_to_decimal(bytes.len()).as_str());
        return Err(m);
    }
    let mut arr = [0u8; 32];
    let mut i: usize = 0;
    while i < 32
        invariant
            0 <= i <= 32,
            bytes@.len() == 32,
            forall|j: int| 0 <= j < i ==> arr@[j] == bytes@[j],
        decreases 32 - i,
    {
        arr[i] = bytes[i];
        i += 1;
    }
    assert(arr@ =~= bytes@);
    Ok(arr)
}

/// Whether two texts are equal.
fn same_text(a: &str, b: &str) -> (r: bool)
    ensures
        r == (a@ == b@),
{
    let x = chars_of(a);
    let y = chars_of(b);
    if x.len() != y.len() {
        return false;
    }
    let mut i: usize = 0;
    while i < x.len()
        invariant
            x@ == a@,
            y@ == b@,
            x@.len() == y@.len(),
            0 <= i <= x@.len(),
            forall|j: int| 0 <= j < i ==> x@[j] == y@[j],
        decreases x@.len() - i,
    {
        if x[i] != y[i] {
            return false;
        }
        i += 1;
    }
    assert(a@ =~= b@);
    true
}

/// The reply eligibility that an option name chooses: `trust_graph`,
/// `trusted_only`, and anything else (or nothing) for open replies.
pub fn parse_reply_eligibility(choice: Option<&str>) -> (r: ReplyEligibility)
    ensures
        r == (match choice {
            Some(c) => if c@ == "trust_graph"@ {
                ReplyEligibility::TrustGraph
            } else if c@ == "trusted_only"@ {
                ReplyEligibility::TrustedOnly
            } else {
                ReplyEligibility::Open
            },
            None => ReplyEligibility::Open,
        }),
{
    match choice {
        Some(c) => {
            if same_text(c, "trust_graph") {
                ReplyEligibility::TrustGraph
            } else if same_text(c, "trusted_only") {
                ReplyEligibility::TrustedOnly
            } else {
                ReplyEligibility::Open
            }
        },
        None => ReplyEligibility::Open,
    }
}

/// The edge type that a name chooses: `trust`, `watch` or `silence`.
pub fn parse_edge_type(name: &str) -> (r: Option<EdgeType>)
    ensures
        r == (if name@ == "trust"@ {
            Some(EdgeType::Trust)
        } else if name@ == "watch"@ {
            Some(EdgeType::Watch)
        } else if name@ == "silence"@ {
            Some(EdgeType::Silence)
        } else {
            None
        }),
{
    if same_text(name, "trust") {
        Some(EdgeType::Trust)
    } else if same_text(name, "watch") {
        Some(EdgeType::Watch)
    } else if same_text(name, "silence") {
        Some(EdgeType::Silence)
    } else {
        None
    }
}

/// The name of an edge type.
pub fn edge_type_name(edge_type: EdgeType) -> (r: String)
    ensures
        r@ == match edge_type {
            EdgeType::Trust => "trust"@,
            EdgeType::Watch => "watch"@,
            EdgeType::Silence => "silence"@,
        },
{
    match edge_type {
        EdgeType::Trust => String::from_str("trust"),
        EdgeType::Watch => String::from_str("watch"),
        EdgeType::Silence => String::from_str("silence"),
    }
}

} // verus!
