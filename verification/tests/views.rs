use pulse::format::{BranchVector, ReplyEligibility};
use pulse::graph_store::EdgeType;
use pulse::keypair::Identity;
use pulse::profile::ProfileMetrics;
use pulse::signing::create_inline_stub;
use pulse::edges::create_trust_edge;
use pulse::feed::FeedItem;
use pulse::views::{
    edge_type_name, edge_view, feed_item_view, parse_edge_type, parse_pubkey,
    parse_reply_eligibility, profile_dto, stopped_network_status, stub_dto,
};

#[test]
fn stub_view_shows_hex_and_text() {
    let id = Identity::generate();
    let stub = create_inline_stub(&id, "shown", BranchVector::reply([0xab; 32]), ReplyEligibility::Open)
        .unwrap();
    let dto = stub_dto(&stub, Some("alice".to_string()));
    assert_eq!(dto.content_hash.len(), 64);
    assert_eq!(dto.author_pubkey, id.public().full_id());
    assert_eq!(dto.author_short_id, id.public().short_id());
    assert_eq!(dto.author_display_name, Some("alice".to_string()));
    assert_eq!(dto.timestamp, stub.timestamp);
    assert_eq!(dto.text, Some("shown".to_string()));
    assert!(!dto.is_root);
    assert_eq!(dto.parent_hash, Some("ab".repeat(32)));
    assert_eq!(dto.branch_id, "ab".repeat(32));
}

#[test]
fn root_stub_view_has_no_parent() {
    let id = Identity::generate();
    let stub = create_inline_stub(&id, "root", BranchVector::root(), ReplyEligibility::Open).unwrap();
    let dto = stub_dto(&stub, None);
    assert!(dto.is_root);
    assert_eq!(dto.parent_hash, None);
    assert_eq!(dto.branch_id, dto.content_hash);
}

#[test]
fn profile_view_copies_metrics() {
    let metrics = ProfileMetrics {
        trust_density: 1,
        watch_count: 2,
        silence_count: 3,
        built_upon_count: 4,
        stub_count: 5,
    };
    let dto = profile_dto(&[0x0f; 32], None, metrics);
    assert_eq!(dto.pubkey, "0f".repeat(32));
    assert_eq!(dto.short_id, "0f".repeat(8));
    assert_eq!(dto.trust_density, 1);
    assert_eq!(dto.watch_count, 2);
    assert_eq!(dto.silence_count, 3);
    assert_eq!(dto.built_upon_count, 4);
    assert_eq!(dto.stub_count, 5);
}

#[test]
fn parse_pubkey_accepts_32_bytes_of_hex() {
    assert_eq!(parse_pubkey(&"AB".repeat(32)).unwrap(), [0xab; 32]);
    assert_eq!(parse_pubkey("abcd").unwrap_err(), "Expected 32 bytes, got 2");
    assert!(parse_pubkey("xyz").unwrap_err().starts_with("Invalid hex: "));
}

#[test]
fn option_names() {
    assert_eq!(parse_reply_eligibility(Some("trust_graph")), ReplyEligibility::TrustGraph);
    assert_eq!(parse_reply_eligibility(Some("trusted_only")), ReplyEligibility::TrustedOnly);
    assert_eq!(parse_reply_eligibility(Some("anyone")), ReplyEligibility::Open);
    assert_eq!(parse_reply_eligibility(None), ReplyEligibility::Open);
    assert_eq!(parse_edge_type("trust"), Some(EdgeType::Trust));
    assert_eq!(parse_edge_type("watch"), Some(EdgeType::Watch));
    assert_eq!(parse_edge_type("silence"), Some(EdgeType::Silence));
    assert_eq!(parse_edge_type("follow"), None);
    assert_eq!(edge_type_name(EdgeType::Watch), "watch");
}

#[test]
fn stopped_network() {
    let status = stopped_network_status();
    assert_eq!(status.peer_count, 0);
    assert!(!status.is_running);
    assert!(status.local_peer_id.is_none());
    assert!(status.listen_addrs.is_empty());
}

#[test]
fn feed_item_views() {
    let id = Identity::generate();
    let stub = create_inline_stub(&id, "trusted", BranchVector::root(), ReplyEligibility::Open).unwrap();
    let hash_hex = stub_dto(&stub, None).content_hash;
    let trust = FeedItem::TrustStub { stub: stub.clone(), trust_weight_bits: 0.25f32.to_bits() };
    let view = feed_item_view(&trust, Some("bob".to_string()));
    assert_eq!(view.item_type, "trust");
    assert_eq!(view.trust_weight_bits.map(f32::from_bits), Some(0.25));
    assert_eq!(view.content_hash, Some(hash_hex.clone()));
    assert_eq!(view.author_short_id, Some(id.public().short_id()));
    assert_eq!(view.stub.as_ref().unwrap().text, Some("trusted".to_string()));
    assert_eq!(view.stub.as_ref().unwrap().author_display_name, Some("bob".to_string()));
    let own = feed_item_view(&FeedItem::OwnStub { stub: stub.clone() }, None);
    assert_eq!(own.item_type, "own");
    assert!(own.trust_weight_bits.is_none());
    // A reply's view carries its text, its parent and the branch it is in.
    let reply = create_inline_stub(&id, "a reply", BranchVector::reply([5u8; 32]), ReplyEligibility::Open)
        .unwrap();
    let own_reply = feed_item_view(&FeedItem::OwnStub { stub: reply.clone() }, None);
    let d = own_reply.stub.unwrap();
    assert_eq!(d.text, Some("a reply".to_string()));
    assert!(!d.is_root);
    assert_eq!(d.parent_hash, Some("05".repeat(32)));
    assert_eq!(d.branch_id, "05".repeat(32));
    assert_eq!(d.author_pubkey, stub_dto(&reply, None).author_pubkey);
    let header = FeedItem::WatchHeader {
        content_hash: stub.content_hash,
        author_pubkey: stub.author_pubkey,
        timestamp: 77,
        branch_id: [1u8; 32],
    };
    let watch = feed_item_view(&header, None);
    assert_eq!(watch.item_type, "watch");
    assert!(watch.stub.is_none());
    assert_eq!(watch.timestamp, 77);
    assert_eq!(watch.branch_id, Some("01".repeat(32)));
    assert_eq!(watch.content_hash, Some(hash_hex));
}

#[test]
fn edge_views() {
    let id = Identity::generate();
    let edge = create_trust_edge(&id, &[2u8; 32], [0u8; 32], 0.5f32.to_bits()).unwrap();
    let view = edge_view(&edge);
    assert_eq!(view.source_pubkey, id.public().full_id());
    assert_eq!(view.target_pubkey, "02".repeat(32));
    assert_eq!(view.edge_type, "trust");
    assert_eq!(f32::from_bits(view.weight_bits), 0.5);
    assert_eq!(view.timestamp, edge.timestamp);
}
