use pulse::branch_store::BranchStore;
use pulse::edges::{create_silence_edge, create_trust_edge, create_watch_edge, store_edge};
use pulse::format::{BranchVector, ReplyEligibility, Stub};
use pulse::graph_store::GraphStore;
use pulse::keypair::Identity;
use pulse::profile::{compute_profile, ProfileMetrics};
use pulse::signing::create_inline_stub;
use pulse::stub_store::StubStoreError;

#[test]
fn profile_metrics_basic() {
    let alice = Identity::generate();
    let bob = Identity::generate();
    let carol = Identity::generate();

    let mut stub_store: Vec<Result<([u8; 32], Stub), StubStoreError>> = Vec::new();
    let mut graph_store = GraphStore::open_in_memory().unwrap();
    let branch_store = BranchStore::open_in_memory().unwrap();

    // Bob and Carol trust Alice
    store_edge(
        &mut graph_store,
        &create_trust_edge(&bob, &alice.public_key_bytes(), [0u8; 32], 0.9f32.to_bits()).unwrap(),
    )
    .unwrap();
    store_edge(
        &mut graph_store,
        &create_trust_edge(&carol, &alice.public_key_bytes(), [0u8; 32], 0.7f32.to_bits()).unwrap(),
    )
    .unwrap();
    // Bob watches Alice too (different edge type)
    store_edge(&mut graph_store, &create_watch_edge(&bob, &alice.public_key_bytes()).unwrap()).unwrap();

    // Alice posts a root stub
    let root = create_inline_stub(&alice, "alice says", BranchVector::root(), ReplyEligibility::Open).unwrap();
    let root_hash = root.content_hash;
    stub_store.push(Ok((root.content_hash, root)));

    // Bob replies to Alice's stub (built-upon)
    let reply = create_inline_stub(&bob, "bob replies", BranchVector::reply(root_hash), ReplyEligibility::Open)
        .unwrap();
    stub_store.push(Ok((reply.content_hash, reply)));

    let metrics =
        compute_profile(&alice.public_key_bytes(), &graph_store, &stub_store, &branch_store).unwrap();

    assert_eq!(metrics.trust_density, 2); // Bob + Carol
    assert_eq!(metrics.watch_count, 1); // Bob
    assert_eq!(metrics.silence_count, 0);
    assert_eq!(metrics.stub_count, 1); // Alice's root stub
    assert_eq!(metrics.built_upon_count, 1); // Bob's reply
}

#[test]
fn self_replies_and_unreadable_entries_not_counted() {
    let alice = Identity::generate();
    let bob = Identity::generate();
    let mut graph_store = GraphStore::open_in_memory().unwrap();
    let branch_store = BranchStore::open_in_memory().unwrap();
    store_edge(&mut graph_store, &create_silence_edge(&bob, &alice.public_key_bytes()).unwrap()).unwrap();

    let root = create_inline_stub(&alice, "root", BranchVector::root(), ReplyEligibility::Open).unwrap();
    let root_hash = root.content_hash;
    let own_reply =
        create_inline_stub(&alice, "self", BranchVector::reply(root_hash), ReplyEligibility::Open).unwrap();
    let bob_reply =
        create_inline_stub(&bob, "other", BranchVector::reply(root_hash), ReplyEligibility::Open).unwrap();
    let unrelated = create_inline_stub(&bob, "x", BranchVector::reply([1u8; 32]), ReplyEligibility::Open).unwrap();
    let entries = vec![
        Ok((root.content_hash, root)),
        Ok((own_reply.content_hash, own_reply)),
        Err(StubStoreError::Deserialize("bad".to_string())),
        Ok((bob_reply.content_hash, bob_reply)),
        Ok((unrelated.content_hash, unrelated)),
    ];
    let metrics = compute_profile(&alice.public_key_bytes(), &graph_store, &entries, &branch_store).unwrap();
    assert_eq!(
        metrics,
        ProfileMetrics {
            trust_density: 0,
            watch_count: 0,
            silence_count: 1,
            built_upon_count: 1,
            stub_count: 2,
        }
    );
}
