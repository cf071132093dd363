use pulse::branch_store::BranchStore;
use pulse::format::{BranchVector, ReplyEligibility};
use pulse::keypair::Identity;
use pulse::messages::PulseMessage;
use pulse::edges::create_trust_edge;
use pulse::graph_store::GraphStore;
use pulse::node::{
    accept_edge, accept_stub_bytes, ingest_stub, accept_stub_bytes_at, record_signer, signer_record, stub_message,
    update_branch_state,
};
use pulse::signer_store::SignerStore;
use pulse::signing::{create_inline_stub, create_inline_stub_at};

#[test]
fn gossiped_valid_stub_is_accepted() {
    let id = Identity::generate();
    let stub = create_inline_stub(&id, "hello from node 1", BranchVector::root(), ReplyEligibility::Open)
        .unwrap();
    let msg = stub_message(&stub).unwrap();
    let bytes = match msg {
        PulseMessage::NewStub { stub_bytes } => stub_bytes,
        other => panic!("unexpected {:?}", other),
    };
    let accepted = accept_stub_bytes(&bytes).unwrap();
    assert_eq!(accepted.content_hash, stub.content_hash);
    assert_eq!(accepted.inline_text().unwrap().unwrap(), "hello from node 1");
}

#[test]
fn gossiped_garbage_or_invalid_stub_is_refused() {
    assert!(accept_stub_bytes(&[0u8; 10]).is_none());
    let id = Identity::generate();
    let stub = create_inline_stub_at(&id, "old", BranchVector::root(), ReplyEligibility::Open, 1000).unwrap();
    let bytes = stub.to_bytes().unwrap();
    assert!(accept_stub_bytes_at(&bytes, 1000).is_some());
    // Read at a time ten minutes before it was made, the stub lies too far in the future.
    let later = create_inline_stub_at(&id, "later", BranchVector::root(), ReplyEligibility::Open, 700_000).unwrap();
    assert!(accept_stub_bytes_at(&later.to_bytes().unwrap(), 100_000).is_none());
}

#[test]
fn signer_recorded_once_per_key() {
    let id = Identity::generate();
    let stub = create_inline_stub(&id, "signed", BranchVector::root(), ReplyEligibility::Open).unwrap();
    let mut signers = SignerStore::open_in_memory().unwrap();
    record_signer(&mut signers, &stub);
    record_signer(&mut signers, &stub);
    let records = signers.get_signers(&stub.content_hash).unwrap();
    assert_eq!(records.len(), 1);
    let expected = signer_record(&stub);
    assert_eq!(records[0].author_pubkey, expected.author_pubkey);
    assert_eq!(records[0].timestamp, stub.timestamp);
    assert_eq!(records[0].signature, stub.signature);
}

#[test]
fn root_creates_branch_and_replies_join_it() {
    let id = Identity::generate();
    let mut branches = BranchStore::open_in_memory().unwrap();
    let root = create_inline_stub_at(&id, "root", BranchVector::root(), ReplyEligibility::Open, 1000).unwrap();
    update_branch_state(&mut branches, &root);
    let reply = create_inline_stub_at(
        &id,
        "reply",
        BranchVector::reply(root.content_hash),
        ReplyEligibility::Open,
        2000,
    )
    .unwrap();
    update_branch_state(&mut branches, &reply);
    // A reply to the reply joins the root's branch, through the reply's attachment.
    let nested = create_inline_stub_at(
        &id,
        "nested",
        BranchVector::reply(reply.content_hash),
        ReplyEligibility::Open,
        3000,
    )
    .unwrap();
    let update = update_branch_state(&mut branches, &nested);
    assert_eq!(update.attachment.branch_id, root.content_hash);
    assert_eq!(update.attachment.content_hash, nested.content_hash);
    assert_eq!(update.attachment.timestamp, 3000);
    assert_eq!(update.branch.unwrap().stub_count, 3);
    // The same stub arriving twice is counted once.
    let again = update_branch_state(&mut branches, &nested);
    assert_eq!(again.branch.unwrap().stub_count, 3);
    let branch = branches.get_branch(&root.content_hash).unwrap().unwrap();
    assert_eq!(branch.stub_count, 3);
    assert_eq!(branch.last_activity, 3000);
    assert_eq!(
        branches.get_branch_stubs(&root.content_hash).unwrap(),
        vec![root.content_hash, reply.content_hash, nested.content_hash]
    );
}

#[test]
fn reply_to_unknown_parent_uses_parent_hash() {
    let id = Identity::generate();
    let mut branches = BranchStore::open_in_memory().unwrap();
    let reply = create_inline_stub(&id, "orphan", BranchVector::reply([4u8; 32]), ReplyEligibility::Open).unwrap();
    let update = update_branch_state(&mut branches, &reply);
    assert!(update.branch.is_none());
    assert_eq!(update.attachment.branch_id, [4u8; 32]);
    assert_eq!(branches.find_branch_for_stub(&reply.content_hash).unwrap(), Some([4u8; 32]));
    assert!(branches.get_branch(&[4u8; 32]).unwrap().is_none());
}

#[test]
fn unencodable_stub_has_no_message() {
    let id = Identity::generate();
    let mut stub = create_inline_stub(&id, "x", BranchVector::root(), ReplyEligibility::Open).unwrap();
    stub.branch_vector.explicit_refs = vec![[0u8; 32]; 4];
    assert!(stub_message(&stub).is_none());
}

#[test]
fn gossiped_edge_stored_only_when_signed() {
    let id = Identity::generate();
    let edge = create_trust_edge(&id, &[9u8; 32], [0u8; 32], 0.5f32.to_bits()).unwrap();
    let mut store = GraphStore::new();
    let mut forged = edge;
    forged.weight_bits = 1.0f32.to_bits();
    assert!(!accept_edge(&mut store, &forged));
    assert!(store.get_all_edges().unwrap().is_empty());
    assert!(accept_edge(&mut store, &edge));
    let all = store.get_all_edges().unwrap();
    assert_eq!(all.len(), 1);
    assert_eq!(all[0].weight_bits, 0.5f32.to_bits());
}

#[test]
fn ingest_records_every_signer_and_branches_new_content_once() {
    let alice = Identity::generate();
    let bob = Identity::generate();
    let mut signers = SignerStore::open_in_memory().unwrap();
    let mut branches = BranchStore::open_in_memory().unwrap();
    let first = create_inline_stub_at(&alice, "same words", BranchVector::root(), ReplyEligibility::Open, 1000)
        .unwrap();
    let update = ingest_stub(&mut signers, &mut branches, &first, true).unwrap();
    assert_eq!(update.attachment.branch_id, first.content_hash);
    assert_eq!(update.branch.unwrap().stub_count, 1);
    // The same text from another author: stored already, so only the signer is added.
    let second = create_inline_stub_at(&bob, "same words", BranchVector::root(), ReplyEligibility::Open, 2000)
        .unwrap();
    assert_eq!(second.content_hash, first.content_hash);
    assert!(ingest_stub(&mut signers, &mut branches, &second, false).is_none());
    assert_eq!(signers.get_signers(&first.content_hash).unwrap().len(), 2);
    let branch = branches.get_branch(&first.content_hash).unwrap().unwrap();
    assert_eq!(branch.stub_count, 1);
    assert_eq!(branch.last_activity, 1000);
    assert_eq!(branches.get_branch_stubs(&first.content_hash).unwrap().len(), 1);
}
