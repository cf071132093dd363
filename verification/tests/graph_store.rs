use pulse::graph_store::{Edge, EdgeType, GraphStore};

fn make_edge(source: [u8; 32], target: [u8; 32], edge_type: EdgeType) -> Edge {
    Edge {
        source_pubkey: source,
        target_pubkey: target,
        edge_type,
        topic_scope: [0u8; 32],
        weight_bits: 0.8f32.to_bits(),
        timestamp: 1000,
        signature: [0u8; 64],
    }
}

#[test]
fn put_and_query_edges() {
    let mut store = GraphStore::open_in_memory().unwrap();
    let alice = [1u8; 32];
    let bob = [2u8; 32];

    let edge = make_edge(alice, bob, EdgeType::Trust);
    store.put_edge(&edge).unwrap();

    let outbound = store.get_outbound(&alice).unwrap();
    assert_eq!(outbound.len(), 1);
    assert_eq!(outbound[0].target_pubkey, bob);
    assert_eq!(outbound[0].edge_type, EdgeType::Trust);

    let inbound = store.get_inbound(&bob).unwrap();
    assert_eq!(inbound.len(), 1);
    assert_eq!(inbound[0].source_pubkey, alice);
}

#[test]
fn all_three_edge_types() {
    let mut store = GraphStore::open_in_memory().unwrap();
    let alice = [1u8; 32];
    let bob = [2u8; 32];
    let carol = [3u8; 32];
    let dave = [4u8; 32];

    store.put_edge(&make_edge(alice, bob, EdgeType::Trust)).unwrap();
    store.put_edge(&make_edge(alice, carol, EdgeType::Watch)).unwrap();
    store.put_edge(&make_edge(alice, dave, EdgeType::Silence)).unwrap();

    let trust = store.get_outbound_by_type(&alice, EdgeType::Trust).unwrap();
    assert_eq!(trust.len(), 1);
    assert_eq!(trust[0].target_pubkey, bob);

    let watch = store.get_outbound_by_type(&alice, EdgeType::Watch).unwrap();
    assert_eq!(watch.len(), 1);
    assert_eq!(watch[0].target_pubkey, carol);

    let silence = store.get_outbound_by_type(&alice, EdgeType::Silence).unwrap();
    assert_eq!(silence.len(), 1);
    assert_eq!(silence[0].target_pubkey, dave);
}

#[test]
fn trust_density_and_watch_count() {
    let mut store = GraphStore::open_in_memory().unwrap();
    let target = [10u8; 32];

    for i in 0..5 {
        let mut src = [0u8; 32];
        src[0] = i;
        store.put_edge(&make_edge(src, target, EdgeType::Trust)).unwrap();
    }
    for i in 5..8 {
        let mut src = [0u8; 32];
        src[0] = i;
        store.put_edge(&make_edge(src, target, EdgeType::Watch)).unwrap();
    }

    assert_eq!(store.trust_density(&target).unwrap(), 5);
    assert_eq!(store.watch_count(&target).unwrap(), 3);
}

#[test]
fn remove_edge() {
    let mut store = GraphStore::open_in_memory().unwrap();
    let alice = [1u8; 32];
    let bob = [2u8; 32];

    store.put_edge(&make_edge(alice, bob, EdgeType::Trust)).unwrap();
    assert_eq!(store.trust_density(&bob).unwrap(), 1);

    let removed = store.remove_edge(&alice, &bob, EdgeType::Trust, &[0u8; 32]).unwrap();
    assert!(removed);
    assert_eq!(store.trust_density(&bob).unwrap(), 0);
}

#[test]
fn is_silenced() {
    let mut store = GraphStore::open_in_memory().unwrap();
    let alice = [1u8; 32];
    let bob = [2u8; 32];

    assert!(!store.is_silenced(&alice, &bob).unwrap());
    store.put_edge(&make_edge(alice, bob, EdgeType::Silence)).unwrap();
    assert!(store.is_silenced(&alice, &bob).unwrap());
}

#[test]
fn upsert_replaces() {
    let mut store = GraphStore::open_in_memory().unwrap();
    let alice = [1u8; 32];
    let bob = [2u8; 32];

    let mut edge = make_edge(alice, bob, EdgeType::Trust);
    edge.weight_bits = 0.5f32.to_bits();
    store.put_edge(&edge).unwrap();

    edge.weight_bits = 0.9f32.to_bits();
    store.put_edge(&edge).unwrap();

    let edges = store.get_outbound(&alice).unwrap();
    assert_eq!(edges.len(), 1);
    assert!((f32::from_bits(edges[0].weight_bits) - 0.9).abs() < f32::EPSILON);
}

#[test]
fn edge_type_codes() {
    assert_eq!(EdgeType::from_u8(0), Some(EdgeType::Trust));
    assert_eq!(EdgeType::from_u8(1), Some(EdgeType::Watch));
    assert_eq!(EdgeType::from_u8(2), Some(EdgeType::Silence));
    assert_eq!(EdgeType::from_u8(3), None);
    assert_eq!(EdgeType::Silence.to_u8(), 2);
}

#[test]
fn topics_are_separate_keys_and_removal_after_insert_restores() {
    let mut store = GraphStore::open_in_memory().unwrap();
    let alice = [1u8; 32];
    let bob = [2u8; 32];
    let universal = make_edge(alice, bob, EdgeType::Trust);
    let mut topical = make_edge(alice, bob, EdgeType::Trust);
    topical.topic_scope = [9u8; 32];
    store.put_edge(&universal).unwrap();
    store.put_edge(&topical).unwrap();
    assert_eq!(store.get_outbound(&alice).unwrap().len(), 2);
    assert_eq!(store.get_all_edges().unwrap().len(), 2);
    assert!(store.remove_edge(&alice, &bob, EdgeType::Trust, &[9u8; 32]).unwrap());
    let left = store.get_all_edges().unwrap();
    assert_eq!(left.len(), 1);
    assert_eq!(left[0].topic_scope, [0u8; 32]);
    assert!(!store.remove_edge(&alice, &bob, EdgeType::Watch, &[0u8; 32]).unwrap());
    assert_eq!(store.get_inbound_by_type(&bob, EdgeType::Trust).unwrap().len(), 1);
    assert_eq!(store.silence_count(&bob).unwrap(), 0);
}
