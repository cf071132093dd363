use pulse::branch_store::{ActivationState, BranchStore};

#[test]
fn create_and_get_branch() {
    let mut store = BranchStore::open_in_memory().unwrap();
    let root_hash = [42u8; 32];

    let branch = store.create_branch(&root_hash, 1000).unwrap();
    assert_eq!(branch.branch_id, root_hash);
    assert_eq!(branch.stub_count, 1);
    assert_eq!(branch.activation_state, ActivationState::Active);

    let retrieved = store.get_branch(&root_hash).unwrap().unwrap();
    assert_eq!(retrieved.branch_id, root_hash);
    assert_eq!(retrieved.stub_count, 1);
}

#[test]
fn attach_stub_increments_count() {
    let mut store = BranchStore::open_in_memory().unwrap();
    let root = [1u8; 32];
    store.create_branch(&root, 1000).unwrap();

    let reply = [2u8; 32];
    store.attach_stub(&root, &reply, 2000).unwrap();

    let branch = store.get_branch(&root).unwrap().unwrap();
    assert_eq!(branch.stub_count, 2);
    assert_eq!(branch.last_activity, 2000);
}

#[test]
fn get_branch_stubs_ordered() {
    let mut store = BranchStore::open_in_memory().unwrap();
    let root = [1u8; 32];
    store.create_branch(&root, 1000).unwrap();

    let r1 = [2u8; 32];
    let r2 = [3u8; 32];
    store.attach_stub(&root, &r1, 2000).unwrap();
    store.attach_stub(&root, &r2, 3000).unwrap();

    let stubs = store.get_branch_stubs(&root).unwrap();
    assert_eq!(stubs.len(), 3);
    assert_eq!(stubs[0], root);
    assert_eq!(stubs[1], r1);
    assert_eq!(stubs[2], r2);
}

#[test]
fn find_branch_for_stub() {
    let mut store = BranchStore::open_in_memory().unwrap();
    let root = [1u8; 32];
    store.create_branch(&root, 1000).unwrap();

    let reply = [2u8; 32];
    store.attach_stub(&root, &reply, 2000).unwrap();

    assert_eq!(store.find_branch_for_stub(&reply).unwrap(), Some(root));
    assert_eq!(store.find_branch_for_stub(&[99u8; 32]).unwrap(), None);
}

#[test]
fn dormancy() {
    let mut store = BranchStore::open_in_memory().unwrap();
    let root = [1u8; 32];
    store.create_branch(&root, 1000).unwrap();

    store.mark_dormant(&root).unwrap();
    let branch = store.get_branch(&root).unwrap().unwrap();
    assert_eq!(branch.activation_state, ActivationState::Dormant);

    // Reactivate by attaching a new stub
    let reply = [2u8; 32];
    store.attach_stub(&root, &reply, 5000).unwrap();
    let branch = store.get_branch(&root).unwrap().unwrap();
    assert_eq!(branch.activation_state, ActivationState::Active);
}

#[test]
fn list_active_branches() {
    let mut store = BranchStore::open_in_memory().unwrap();

    let b1 = [1u8; 32];
    let b2 = [2u8; 32];
    let b3 = [3u8; 32];
    store.create_branch(&b1, 1000).unwrap();
    store.create_branch(&b2, 2000).unwrap();
    store.create_branch(&b3, 3000).unwrap();

    store.mark_dormant(&b2).unwrap();

    let active = store.list_active_branches().unwrap();
    assert_eq!(active.len(), 2);
    assert_eq!(active[0].branch_id, b3); // most recent first
    assert_eq!(active[1].branch_id, b1);
}

#[test]
fn activation_state_codes() {
    assert_eq!(ActivationState::from_u8(0), ActivationState::Active);
    assert_eq!(ActivationState::from_u8(1), ActivationState::Dormant);
    assert_eq!(ActivationState::from_u8(7), ActivationState::Active);
    assert_eq!(ActivationState::Dormant.to_u8(), 1);
    assert_eq!(ActivationState::Active.to_u8(), 0);
}

#[test]
fn create_and_attach_are_idempotent() {
    let mut store = BranchStore::open_in_memory().unwrap();
    let root = [1u8; 32];
    store.create_branch(&root, 1000).unwrap();
    store.create_branch(&root, 4000).unwrap();
    store.attach_stub(&root, &[2u8; 32], 2000).unwrap();
    store.attach_stub(&root, &[2u8; 32], 2500).unwrap();
    assert_eq!(store.get_branch_stubs(&root).unwrap().len(), 2);
    let branch = store.get_branch(&root).unwrap().unwrap();
    // A repeated attachment is not counted again and changes nothing.
    assert_eq!(branch.stub_count, 2);
    assert_eq!(branch.last_activity, 2000);
    // An older attachment counts, but does not move the activity time back.
    store.attach_stub(&root, &[3u8; 32], 10).unwrap();
    let branch = store.get_branch(&root).unwrap().unwrap();
    assert_eq!(branch.stub_count, 3);
    assert_eq!(branch.last_activity, 2000);
    assert_eq!(store.get_branch_stubs(&root).unwrap().len() as u64, branch.stub_count);
}

#[test]
fn attach_to_unknown_branch_records_only_the_stub() {
    let mut store = BranchStore::open_in_memory().unwrap();
    store.attach_stub(&[5u8; 32], &[6u8; 32], 100).unwrap();
    assert!(store.get_branch(&[5u8; 32]).unwrap().is_none());
    assert_eq!(store.find_branch_for_stub(&[6u8; 32]).unwrap(), Some([5u8; 32]));
    assert_eq!(store.get_branch_stubs(&[5u8; 32]).unwrap(), vec![[6u8; 32]]);
}
