use pulse::edges::{
    create_silence_edge, create_trust_edge, create_watch_edge, revoke_edge, store_edge,
    verify_edge_signature, EdgeError,
};
use pulse::graph_store::{EdgeType, GraphStore};
use pulse::keypair::Identity;

#[test]
fn create_and_verify_trust_edge() {
    let id = Identity::generate();
    let target = [42u8; 32];
    let edge = create_trust_edge(&id, &target, [0u8; 32], 0.8f32.to_bits()).unwrap();

    assert_eq!(edge.edge_type, EdgeType::Trust);
    assert_eq!(edge.source_pubkey, id.public_key_bytes());
    assert_eq!(edge.target_pubkey, target);
    assert!((f32::from_bits(edge.weight_bits) - 0.8).abs() < f32::EPSILON);
    assert!(verify_edge_signature(&edge));
}

#[test]
fn create_and_verify_watch_edge() {
    let id = Identity::generate();
    let target = [43u8; 32];
    let edge = create_watch_edge(&id, &target).unwrap();

    assert_eq!(edge.edge_type, EdgeType::Watch);
    assert!(verify_edge_signature(&edge));
}

#[test]
fn create_and_verify_silence_edge() {
    let id = Identity::generate();
    let target = [44u8; 32];
    let edge = create_silence_edge(&id, &target).unwrap();

    assert_eq!(edge.edge_type, EdgeType::Silence);
    assert!(verify_edge_signature(&edge));
}

#[test]
fn tampered_edge_fails_verify() {
    let id = Identity::generate();
    let target = [42u8; 32];
    let mut edge = create_trust_edge(&id, &target, [0u8; 32], 0.8f32.to_bits()).unwrap();
    edge.weight_bits = 1.0f32.to_bits(); // tamper
    assert!(!verify_edge_signature(&edge));
}

#[test]
fn self_edge_rejected() {
    let id = Identity::generate();
    let pubkey = id.public_key_bytes();
    assert!(create_trust_edge(&id, &pubkey, [0u8; 32], 0.5f32.to_bits()).is_err());
}

#[test]
fn invalid_weight_rejected() {
    let id = Identity::generate();
    let target = [42u8; 32];
    assert!(create_trust_edge(&id, &target, [0u8; 32], 1.5f32.to_bits()).is_err());
    assert!(create_trust_edge(&id, &target, [0u8; 32], (-0.1f32).to_bits()).is_err());
}

#[test]
fn store_and_query_edges() {
    let mut store = GraphStore::open_in_memory().unwrap();
    let id = Identity::generate();
    let bob = [2u8; 32];
    let carol = [3u8; 32];
    let dave = [4u8; 32];

    let trust = create_trust_edge(&id, &bob, [0u8; 32], 0.9f32.to_bits()).unwrap();
    let watch = create_watch_edge(&id, &carol).unwrap();
    let silence = create_silence_edge(&id, &dave).unwrap();

    store_edge(&mut store, &trust).unwrap();
    store_edge(&mut store, &watch).unwrap();
    store_edge(&mut store, &silence).unwrap();

    let source = id.public_key_bytes();
    assert_eq!(store.get_outbound_by_type(&source, EdgeType::Trust).unwrap().len(), 1);
    assert_eq!(store.get_outbound_by_type(&source, EdgeType::Watch).unwrap().len(), 1);
    assert_eq!(store.get_outbound_by_type(&source, EdgeType::Silence).unwrap().len(), 1);
    assert!(store.is_silenced(&source, &dave).unwrap());
    assert!(!store.is_silenced(&source, &bob).unwrap());
}

#[test]
fn weight_bounds_are_inclusive() {
    let id = Identity::generate();
    let target = [9u8; 32];
    assert!(create_trust_edge(&id, &target, [0u8; 32], 0.0f32.to_bits()).is_ok());
    assert!(create_trust_edge(&id, &target, [0u8; 32], 1.0f32.to_bits()).is_ok());
    assert!(create_trust_edge(&id, &target, [0u8; 32], (-0.0f32).to_bits()).is_ok());
    // NaN is no weight.
    assert!(matches!(
        create_trust_edge(&id, &target, [0u8; 32], f32::NAN.to_bits()),
        Err(EdgeError::InvalidWeight(_))
    ));
    match create_trust_edge(&id, &target, [0u8; 32], 1.5f32.to_bits()) {
        Err(EdgeError::InvalidWeight(bits)) => assert_eq!(f32::from_bits(bits), 1.5),
        other => panic!("unexpected {:?}", other),
    }
    assert!(create_trust_edge(&id, &target, [0u8; 32], f32::INFINITY.to_bits()).is_err());
}

#[test]
fn self_edge_error_for_every_kind() {
    let id = Identity::generate();
    let me = id.public_key_bytes();
    assert!(matches!(create_watch_edge(&id, &me), Err(EdgeError::SelfEdge)));
    assert!(matches!(create_silence_edge(&id, &me), Err(EdgeError::SelfEdge)));
    assert!(matches!(
        create_trust_edge(&id, &me, [0u8; 32], 0.5f32.to_bits()),
        Err(EdgeError::SelfEdge)
    ));
}

#[test]
fn revoke_removes_stored_edge() {
    let mut store = GraphStore::open_in_memory().unwrap();
    let id = Identity::generate();
    let bob = [2u8; 32];
    let edge = create_watch_edge(&id, &bob).unwrap();
    store_edge(&mut store, &edge).unwrap();
    let me = id.public_key_bytes();
    assert!(revoke_edge(&mut store, &me, &bob, EdgeType::Watch, &[0u8; 32]).unwrap());
    assert!(!revoke_edge(&mut store, &me, &bob, EdgeType::Watch, &[0u8; 32]).unwrap());
    assert_eq!(store.get_outbound(&me).unwrap().len(), 0);
}

#[test]
fn watch_and_silence_edges_have_zero_weight_and_topic() {
    let id = Identity::generate();
    let edge = create_watch_edge(&id, &[5u8; 32]).unwrap();
    assert_eq!(edge.weight_bits, 0);
    assert_eq!(edge.topic_scope, [0u8; 32]);
    let edge = create_silence_edge(&id, &[5u8; 32]).unwrap();
    assert_eq!(edge.weight_bits, 0);
    assert_eq!(edge.topic_scope, [0u8; 32]);
}

#[test]
fn edge_with_bad_source_fails_verify() {
    let id = Identity::generate();
    let other = Identity::generate();
    let mut edge = create_watch_edge(&id, &[5u8; 32]).unwrap();
    edge.source_pubkey = other.public_key_bytes();
    assert!(!verify_edge_signature(&edge));
}
