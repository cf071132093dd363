use pulse::signer_store::{SignerRecord, SignerStore};

fn make_record(content: [u8; 32], author: [u8; 32], ts: u64) -> SignerRecord {
    SignerRecord { content_hash: content, author_pubkey: author, timestamp: ts, signature: [0u8; 64] }
}

#[test]
fn add_and_get_signers() {
    let mut store = SignerStore::open_in_memory().unwrap();
    let hash = [1u8; 32];

    store.add_signer(&make_record(hash, [10u8; 32], 1000)).unwrap();
    store.add_signer(&make_record(hash, [20u8; 32], 2000)).unwrap();
    store.add_signer(&make_record(hash, [30u8; 32], 3000)).unwrap();

    let signers = store.get_signers(&hash).unwrap();
    assert_eq!(signers.len(), 3);
    assert_eq!(signers[0].author_pubkey, [10u8; 32]);
    assert_eq!(signers[2].author_pubkey, [30u8; 32]);
}

#[test]
fn same_author_different_times() {
    let mut store = SignerStore::open_in_memory().unwrap();
    let hash = [1u8; 32];
    let author = [10u8; 32];

    store.add_signer(&make_record(hash, author, 1000)).unwrap();
    store.add_signer(&make_record(hash, author, 2000)).unwrap();

    assert_eq!(store.signer_count(&hash).unwrap(), 2);
    assert_eq!(store.unique_author_count(&hash).unwrap(), 1);
}

#[test]
fn duplicate_ignored() {
    let mut store = SignerStore::open_in_memory().unwrap();
    let hash = [1u8; 32];
    let rec = make_record(hash, [10u8; 32], 1000);

    store.add_signer(&rec).unwrap();
    store.add_signer(&rec).unwrap(); // same PK, ignored

    assert_eq!(store.signer_count(&hash).unwrap(), 1);
}

#[test]
fn no_signers_returns_empty() {
    let store = SignerStore::open_in_memory().unwrap();
    assert_eq!(store.get_signers(&[99u8; 32]).unwrap().len(), 0);
    assert_eq!(store.signer_count(&[99u8; 32]).unwrap(), 0);
}

#[test]
fn signers_sorted_by_time_and_first_kept() {
    let mut store = SignerStore::open_in_memory().unwrap();
    let hash = [1u8; 32];
    store.add_signer(&make_record(hash, [3u8; 32], 3000)).unwrap();
    store.add_signer(&make_record(hash, [1u8; 32], 1000)).unwrap();
    store.add_signer(&make_record([2u8; 32], [9u8; 32], 500)).unwrap();
    let mut dup = make_record(hash, [1u8; 32], 1000);
    dup.signature = [7u8; 64];
    store.add_signer(&dup).unwrap();
    let signers = store.get_signers(&hash).unwrap();
    assert_eq!(signers.len(), 2);
    assert_eq!(signers[0].timestamp, 1000);
    assert_eq!(signers[0].signature, [0u8; 64]);
    assert_eq!(signers[1].timestamp, 3000);
    assert_eq!(store.unique_author_count(&hash).unwrap(), 2);
}
