use pulse::edges::{create_silence_edge, create_trust_edge, create_watch_edge, store_edge};
use pulse::feed::{build_feed, FeedItem};
use pulse::format::{BranchVector, ReplyEligibility, Stub};
use pulse::graph_store::GraphStore;
use pulse::keypair::Identity;
use pulse::signing::{create_inline_stub, create_inline_stub_at};
use pulse::stub_store::StubStoreError;

type Entry = Result<([u8; 32], Stub), StubStoreError>;

fn setup() -> (Identity, Identity, Identity, Identity, Vec<Entry>, GraphStore) {
    let alice = Identity::generate();
    let bob = Identity::generate(); // will be trusted
    let carol = Identity::generate(); // will be watched
    let dave = Identity::generate(); // will be silenced
    let graph_store = GraphStore::open_in_memory().unwrap();
    (alice, bob, carol, dave, Vec::new(), graph_store)
}

fn put(entries: &mut Vec<Entry>, stub: Stub) {
    entries.push(Ok((stub.content_hash, stub)));
}

#[test]
fn trust_stubs_appear_in_feed() {
    let (alice, bob, _carol, _dave, mut stub_store, mut graph_store) = setup();

    // Alice trusts Bob
    let edge = create_trust_edge(&alice, &bob.public_key_bytes(), [0u8; 32], 0.9f32.to_bits()).unwrap();
    store_edge(&mut graph_store, &edge).unwrap();

    // Bob posts a stub
    let stub = create_inline_stub(&bob, "trusted content", BranchVector::root(), ReplyEligibility::Open)
        .unwrap();
    put(&mut stub_store, stub);

    let feed = build_feed(&alice.public_key_bytes(), &graph_store, stub_store, 50).unwrap();
    assert_eq!(feed.len(), 1);
    assert!(feed[0].is_trust());
    if let FeedItem::TrustStub { stub: s, trust_weight_bits } = &feed[0] {
        assert_eq!(s.inline_text().unwrap().unwrap(), "trusted content");
        assert!((f32::from_bits(*trust_weight_bits) - 0.9).abs() < f32::EPSILON);
    }
}

#[test]
fn watch_headers_appear_without_content() {
    let (alice, _bob, carol, _dave, mut stub_store, mut graph_store) = setup();

    // Alice watches Carol
    let edge = create_watch_edge(&alice, &carol.public_key_bytes()).unwrap();
    store_edge(&mut graph_store, &edge).unwrap();

    // Carol posts
    let stub = create_inline_stub(&carol, "watched content", BranchVector::root(), ReplyEligibility::Open)
        .unwrap();
    put(&mut stub_store, stub);

    let feed = build_feed(&alice.public_key_bytes(), &graph_store, stub_store, 50).unwrap();
    assert_eq!(feed.len(), 1);
    assert!(feed[0].is_watch());
    if let FeedItem::WatchHeader { author_pubkey, .. } = &feed[0] {
        assert_eq!(author_pubkey, &carol.public_key_bytes());
    }
}

#[test]
fn silenced_authors_excluded() {
    let (alice, _bob, _carol, dave, mut stub_store, mut graph_store) = setup();

    // Alice silences Dave
    let edge = create_silence_edge(&alice, &dave.public_key_bytes()).unwrap();
    store_edge(&mut graph_store, &edge).unwrap();

    // Dave posts
    let stub = create_inline_stub(&dave, "silenced content", BranchVector::root(), ReplyEligibility::Open)
        .unwrap();
    put(&mut stub_store, stub);

    let feed = build_feed(&alice.public_key_bytes(), &graph_store, stub_store, 50).unwrap();
    assert_eq!(feed.len(), 0); // Dave's content is excluded
}

#[test]
fn unknown_authors_not_in_feed() {
    let (alice, _bob, _carol, _dave, mut stub_store, graph_store) = setup();

    // Random stranger posts
    let stranger = Identity::generate();
    let stub = create_inline_stub(&stranger, "stranger content", BranchVector::root(), ReplyEligibility::Open)
        .unwrap();
    put(&mut stub_store, stub);

    let feed = build_feed(&alice.public_key_bytes(), &graph_store, stub_store, 50).unwrap();
    assert_eq!(feed.len(), 0); // Stranger not in feed
}

#[test]
fn full_feed_with_all_edge_types() {
    let (alice, bob, carol, dave, mut stub_store, mut graph_store) = setup();

    // Alice trusts Bob, watches Carol, silences Dave
    store_edge(
        &mut graph_store,
        &create_trust_edge(&alice, &bob.public_key_bytes(), [0u8; 32], 0.9f32.to_bits()).unwrap(),
    )
    .unwrap();
    store_edge(&mut graph_store, &create_watch_edge(&alice, &carol.public_key_bytes()).unwrap()).unwrap();
    store_edge(&mut graph_store, &create_silence_edge(&alice, &dave.public_key_bytes()).unwrap()).unwrap();

    // Everyone posts
    let stranger = Identity::generate();
    put(&mut stub_store, create_inline_stub(&bob, "from bob", BranchVector::root(), ReplyEligibility::Open).unwrap());
    put(&mut stub_store, create_inline_stub(&carol, "from carol", BranchVector::root(), ReplyEligibility::Open).unwrap());
    put(&mut stub_store, create_inline_stub(&dave, "from dave", BranchVector::root(), ReplyEligibility::Open).unwrap());
    put(
        &mut stub_store,
        create_inline_stub(&stranger, "from stranger", BranchVector::root(), ReplyEligibility::Open).unwrap(),
    );

    let feed = build_feed(&alice.public_key_bytes(), &graph_store, stub_store, 50).unwrap();

    // Bob (trusted): full stub. Carol (watched): header. Dave (silenced): excluded. Stranger: excluded.
    assert_eq!(feed.len(), 2);
    assert!(feed[0].is_trust()); // Trust items first
    assert!(feed[1].is_watch());
}

#[test]
fn own_stubs_appear_as_own_type() {
    let (alice, _bob, _carol, _dave, mut stub_store, graph_store) = setup();

    let stub = create_inline_stub(&alice, "my own post", BranchVector::root(), ReplyEligibility::Open).unwrap();
    put(&mut stub_store, stub);

    let feed = build_feed(&alice.public_key_bytes(), &graph_store, stub_store, 50).unwrap();
    assert_eq!(feed.len(), 1);
    assert!(feed[0].is_own());
}

#[test]
fn feed_ordered_trust_first_then_by_time() {
    let (alice, bob, carol, _dave, mut stub_store, mut graph_store) = setup();

    store_edge(
        &mut graph_store,
        &create_trust_edge(&alice, &bob.public_key_bytes(), [0u8; 32], 0.9f32.to_bits()).unwrap(),
    )
    .unwrap();
    store_edge(&mut graph_store, &create_watch_edge(&alice, &carol.public_key_bytes()).unwrap()).unwrap();

    // Carol posts first (watched), then Bob (trusted), 10 ms later
    let carol_stub =
        create_inline_stub_at(&carol, "carol first", BranchVector::root(), ReplyEligibility::Open, 1_000_000)
            .unwrap();
    put(&mut stub_store, carol_stub);

    let bob_stub =
        create_inline_stub_at(&bob, "bob second", BranchVector::root(), ReplyEligibility::Open, 1_000_010)
            .unwrap();
    put(&mut stub_store, bob_stub);

    let feed = build_feed(&alice.public_key_bytes(), &graph_store, stub_store, 50).unwrap();
    assert_eq!(feed.len(), 2);
    // Trust items come first regardless of timestamp
    assert!(feed[0].is_trust());
    assert!(feed[1].is_watch());
}

#[test]
fn feed_newest_first_within_group_and_limited() {
    let (alice, bob, carol, _dave, mut stub_store, mut graph_store) = setup();
    store_edge(
        &mut graph_store,
        &create_trust_edge(&alice, &bob.public_key_bytes(), [0u8; 32], 0.5f32.to_bits()).unwrap(),
    )
    .unwrap();
    store_edge(&mut graph_store, &create_watch_edge(&alice, &carol.public_key_bytes()).unwrap()).unwrap();
    for (who, text, ts) in [
        (&bob, "b1", 100u64),
        (&carol, "c1", 500u64),
        (&alice, "a1", 300u64),
        (&bob, "b2", 200u64),
        (&carol, "c2", 50u64),
    ] {
        put(
            &mut stub_store,
            create_inline_stub_at(who, text, BranchVector::root(), ReplyEligibility::Open, ts).unwrap(),
        );
    }
    stub_store.push(Err(StubStoreError::Deserialize("unreadable".to_string())));
    let feed = build_feed(&alice.public_key_bytes(), &graph_store, stub_store, 50).unwrap();
    let times: Vec<u64> = feed.iter().map(|i| i.timestamp()).collect();
    assert_eq!(times, vec![300, 200, 100, 500, 50]);
    assert!(feed[0].is_own());
    assert_eq!(feed[0].author(), &alice.public_key_bytes());
    assert!(feed[1].is_trust() && feed[2].is_trust());
    assert!(feed[3].is_watch() && feed[4].is_watch());
}

#[test]
fn feed_limit_truncates_after_sorting() {
    let (alice, bob, carol, _dave, mut stub_store, mut graph_store) = setup();
    store_edge(
        &mut graph_store,
        &create_trust_edge(&alice, &bob.public_key_bytes(), [0u8; 32], 0.5f32.to_bits()).unwrap(),
    )
    .unwrap();
    store_edge(&mut graph_store, &create_watch_edge(&alice, &carol.public_key_bytes()).unwrap()).unwrap();
    put(&mut stub_store, create_inline_stub_at(&carol, "w", BranchVector::root(), ReplyEligibility::Open, 900).unwrap());
    put(&mut stub_store, create_inline_stub_at(&bob, "t1", BranchVector::root(), ReplyEligibility::Open, 10).unwrap());
    put(&mut stub_store, create_inline_stub_at(&bob, "t2", BranchVector::root(), ReplyEligibility::Open, 20).unwrap());
    let feed = build_feed(&alice.public_key_bytes(), &graph_store, stub_store, 2).unwrap();
    assert_eq!(feed.len(), 2);
    assert_eq!(feed[0].timestamp(), 20);
    assert_eq!(feed[1].timestamp(), 10);
}

#[test]
fn silence_wins_over_trust_and_header_has_branch() {
    let (alice, bob, carol, _dave, mut stub_store, mut graph_store) = setup();
    let b = bob.public_key_bytes();
    store_edge(&mut graph_store, &create_trust_edge(&alice, &b, [0u8; 32], 0.5f32.to_bits()).unwrap()).unwrap();
    store_edge(&mut graph_store, &create_silence_edge(&alice, &b).unwrap()).unwrap();
    store_edge(&mut graph_store, &create_watch_edge(&alice, &carol.public_key_bytes()).unwrap()).unwrap();
    put(&mut stub_store, create_inline_stub(&bob, "muted", BranchVector::root(), ReplyEligibility::Open).unwrap());
    let reply = create_inline_stub(&carol, "reply", BranchVector::reply([8u8; 32]), ReplyEligibility::Open).unwrap();
    let reply_hash = reply.content_hash;
    put(&mut stub_store, reply);
    let feed = build_feed(&alice.public_key_bytes(), &graph_store, stub_store, 10).unwrap();
    assert_eq!(feed.len(), 1);
    match &feed[0] {
        FeedItem::WatchHeader { content_hash, branch_id, .. } => {
            assert_eq!(content_hash, &reply_hash);
            assert_eq!(branch_id, &[8u8; 32]);
        }
        other => panic!("unexpected {:?}", other),
    }
}
