use pulse::profile_store::{ProfileMeta, ProfileStore};

#[test]
fn set_and_get_profile() {
    let mut store = ProfileStore::open_in_memory().unwrap();
    let pubkey = [1u8; 32];
    let meta = ProfileMeta { pubkey, display_name: Some("alice".into()), avatar: None, timestamp: 1000 };
    store.set_profile(&meta).unwrap();

    let retrieved = store.get_profile(&pubkey).unwrap().unwrap();
    assert_eq!(retrieved.display_name, Some("alice".into()));
}

#[test]
fn newer_timestamp_wins() {
    let mut store = ProfileStore::open_in_memory().unwrap();
    let pubkey = [1u8; 32];

    store
        .set_profile(&ProfileMeta { pubkey, display_name: Some("old".into()), avatar: None, timestamp: 1000 })
        .unwrap();

    store
        .set_profile(&ProfileMeta { pubkey, display_name: Some("new".into()), avatar: None, timestamp: 2000 })
        .unwrap();

    assert_eq!(store.get_display_name(&pubkey).unwrap(), Some("new".into()));

    // Older timestamp should not overwrite
    store
        .set_profile(&ProfileMeta { pubkey, display_name: Some("stale".into()), avatar: None, timestamp: 500 })
        .unwrap();

    assert_eq!(store.get_display_name(&pubkey).unwrap(), Some("new".into()));
}

#[test]
fn search_by_name() {
    let mut store = ProfileStore::open_in_memory().unwrap();

    store
        .set_profile(&ProfileMeta {
            pubkey: [1u8; 32],
            display_name: Some("Alice".into()),
            avatar: None,
            timestamp: 1000,
        })
        .unwrap();
    store
        .set_profile(&ProfileMeta {
            pubkey: [2u8; 32],
            display_name: Some("Bob".into()),
            avatar: None,
            timestamp: 1000,
        })
        .unwrap();
    store
        .set_profile(&ProfileMeta {
            pubkey: [3u8; 32],
            display_name: Some("alice2".into()),
            avatar: None,
            timestamp: 1000,
        })
        .unwrap();

    let results = store.search_by_name("alice").unwrap();
    assert_eq!(results.len(), 2); // Alice and alice2
}

#[test]
fn unicode_display_name() {
    let mut store = ProfileStore::open_in_memory().unwrap();
    let name = "Dann 🌍 日本語";
    store
        .set_profile(&ProfileMeta { pubkey: [1u8; 32], display_name: Some(name.into()), avatar: None, timestamp: 1000 })
        .unwrap();
    assert_eq!(store.get_display_name(&[1u8; 32]).unwrap(), Some(name.into()));
}

#[test]
fn get_all_profiles() {
    let mut store = ProfileStore::open_in_memory().unwrap();
    store
        .set_profile(&ProfileMeta { pubkey: [1u8; 32], display_name: Some("a".into()), avatar: None, timestamp: 1000 })
        .unwrap();
    store
        .set_profile(&ProfileMeta { pubkey: [2u8; 32], display_name: Some("b".into()), avatar: None, timestamp: 1000 })
        .unwrap();
    assert_eq!(store.get_all_profiles().unwrap().len(), 2);
}

#[test]
fn search_is_literal_and_skips_missing_names() {
    let mut store = ProfileStore::open_in_memory().unwrap();
    for (k, name) in [
        (1u8, Some("Carol")),
        (2u8, Some("caROLine")),
        (3u8, None),
        (4u8, Some("Karl")),
        (5u8, Some("100%_sure")),
    ] {
        store
            .set_profile(&ProfileMeta {
                pubkey: [k; 32],
                display_name: name.map(|n| n.to_string()),
                avatar: None,
                timestamp: 1,
            })
            .unwrap();
    }
    assert_eq!(store.search_by_name("carol").unwrap().len(), 2);
    assert_eq!(store.search_by_name("AR").unwrap().len(), 3);
    // `_` and `%` in a query stand for themselves.
    assert_eq!(store.search_by_name("_ar").unwrap().len(), 0);
    assert_eq!(store.search_by_name("c%e").unwrap().len(), 0);
    let hits = store.search_by_name("%_").unwrap();
    assert_eq!(hits.len(), 1);
    assert_eq!(hits[0].pubkey, [5u8; 32]);
    // The empty query matches every profile that has a name.
    assert_eq!(store.search_by_name("").unwrap().len(), 4);
    assert_eq!(store.search_by_name("zzz").unwrap().len(), 0);
}

#[test]
fn unknown_profile_is_none() {
    let store = ProfileStore::open_in_memory().unwrap();
    assert!(store.get_profile(&[9u8; 32]).unwrap().is_none());
    assert_eq!(store.get_display_name(&[9u8; 32]).unwrap(), None);
}

#[test]
fn equal_timestamp_keeps_first() {
    let mut store = ProfileStore::open_in_memory().unwrap();
    let pubkey = [1u8; 32];
    store
        .set_profile(&ProfileMeta { pubkey, display_name: Some("first".into()), avatar: None, timestamp: 7 })
        .unwrap();
    store
        .set_profile(&ProfileMeta { pubkey, display_name: Some("second".into()), avatar: Some("a.png".into()), timestamp: 7 })
        .unwrap();
    let p = store.get_profile(&pubkey).unwrap().unwrap();
    assert_eq!(p.display_name, Some("first".into()));
    assert_eq!(p.avatar, None);
}
