use occlusion::build_store;
use occlusion::ActiveStore;
use occlusion::Store;
use occlusion::StoreAlgorithm;
use occlusion::SwappableStore;
use uuid::Uuid;

fn create_test_store() -> ActiveStore {
    let entries = vec![
        (Uuid::from_u128(1).as_u128(), 0),
        (Uuid::from_u128(2).as_u128(), 5),
        (Uuid::from_u128(3).as_u128(), 10),
    ];
    build_store(entries).unwrap()
}

fn create_store_from_entries(entries: Vec<(u128, u8)>) -> ActiveStore {
    build_store(entries).unwrap()
}

#[test]
fn test_basic_operations() {
    let store = SwappableStore::new(create_test_store());

    assert_eq!(store.len(), 3);
    assert!(!store.is_empty());
    assert_eq!(store.get_visibility(&Uuid::from_u128(1).as_u128()), Some(0));
    assert_eq!(store.get_visibility(&Uuid::from_u128(2).as_u128()), Some(5));
    assert!(store.is_visible(&Uuid::from_u128(1).as_u128(), 0));
    assert!(!store.is_visible(&Uuid::from_u128(3).as_u128(), 5)); // level 10 > mask 5
}

#[test]
fn test_swap() {
    let store = SwappableStore::new(create_test_store());
    assert_eq!(store.len(), 3);

    // Create new store with different data
    let new_entries = vec![
        (Uuid::from_u128(100).as_u128(), 0),
        (Uuid::from_u128(200).as_u128(), 0),
    ];
    let new_store = create_store_from_entries(new_entries);

    store.swap(new_store);

    assert_eq!(store.len(), 2);
    assert_eq!(store.get_visibility(&Uuid::from_u128(1).as_u128()), None); // Old UUID gone
    assert_eq!(store.get_visibility(&Uuid::from_u128(100).as_u128()), Some(0)); // New UUID present
}

#[test]
fn swappable_test_check_batch() {
    let store = SwappableStore::new(create_test_store());

    let uuids = vec![
        Uuid::from_u128(1).as_u128(),
        Uuid::from_u128(2).as_u128(),
        Uuid::from_u128(3).as_u128(),
    ];
    let results: Vec<bool> = uuids.iter().map(|uuid| store.is_visible(uuid, 5)).collect();

    assert_eq!(results, vec![true, true, false]); // 0<=5, 5<=5, 10>5
    assert!(!store.check_batch(&uuids, 5));
    assert!(store.check_batch(&uuids, 10));
    assert!(store.check_batch(&[], 0));
}

#[test]
fn test_clone() {
    let store1 = SwappableStore::new(create_test_store());
    let store2 = store1.clone();

    // Both should see the same data
    assert_eq!(store1.len(), store2.len());

    // Swap on one should affect the other (shared Arc)
    let new_entries = vec![(Uuid::from_u128(999).as_u128(), 0)];
    let new_store = create_store_from_entries(new_entries);
    store1.swap(new_store);

    assert_eq!(store2.len(), 1);
    assert_eq!(store2.get_visibility(&Uuid::from_u128(999).as_u128()), Some(0));
}

#[test]
fn a_snapshot_outlives_a_swap() {
    let store = SwappableStore::new(create_test_store());
    let before = store.snapshot();
    store.swap(create_store_from_entries(vec![(7, 7)]));
    // The reader that began before the swap still sees all of the old index.
    assert_eq!(before.len(), 3);
    assert_eq!(before.get_visibility(&2), Some(5));
    assert_eq!(before.get_visibility(&7), None);
    assert!(before.check_batch(&[1, 2, 3], 10));
    // A reader that begins after it sees the new one.
    let after = store.snapshot();
    assert_eq!(after.len(), 1);
    assert_eq!(after.get_visibility(&7), Some(7));
    assert_eq!(store.visibility_distribution().get(&7), Some(&1));
}

#[test]
fn clear_installs_an_empty_index_of_the_same_layout() {
    for algorithm in StoreAlgorithm::all() {
        let store = SwappableStore::new(ActiveStore::build(algorithm, vec![(1, 0), (2, 9)]).unwrap());
        assert_eq!(store.len(), 2);
        store.clear();
        assert_eq!(store.len(), 0);
        assert!(store.is_empty());
        assert!(!store.is_visible(&1, 255));
        assert_eq!(store.get_visibility(&2), None);
        assert!(store.check_batch(&[], 0));
        assert!(!store.check_batch(&[1], 255));
        assert_eq!(store.visibility_distribution().len(), 0);
        assert_eq!(store.snapshot().algorithm(), algorithm);
    }
}

#[test]
fn readers_between_swaps_see_whole_indexes() {
    // Two indexes of different sizes take turns. Whatever a reader finds, it
    // is one of the two, never a mix and never an empty one.
    let small: Vec<(u128, u8)> = (0..10u128).map(|n| (n, 1)).collect();
    let large: Vec<(u128, u8)> = (0..1000u128).map(|n| (n, 2)).collect();
    let store = SwappableStore::new(build_store(small.clone()).unwrap());
    let reader = store.clone();
    let mut held = Vec::new();
    for round in 0..50 {
        let entries = if round % 2 == 0 { large.clone() } else { small.clone() };
        held.push(reader.snapshot());
        store.swap(build_store(entries).unwrap());
        let count = reader.len();
        assert_eq!(count, if round % 2 == 0 { 1000 } else { 10 });
        let level = if count == 10 { 1 } else { 2 };
        assert_eq!(reader.get_visibility(&9), Some(level));
        assert_eq!(reader.visibility_distribution().get(&level), Some(&count));
    }
    for (round, current) in held.iter().enumerate() {
        // What was taken before the swap of a round is the index of the
        // round before.
        let count = if round % 2 == 0 { 10 } else { 1000 };
        assert_eq!(current.len(), count);
        assert_eq!(current.get_visibility(&999), if count == 10 { None } else { Some(2) });
    }
}

fn shareable<T: Send + Sync>() {}

#[test]
fn stores_can_be_shared_between_threads() {
    shareable::<occlusion::HashMapStore>();
    shareable::<occlusion::VecStore>();
    shareable::<occlusion::HybridAuthStore>();
    shareable::<occlusion::FullHashStore>();
    shareable::<ActiveStore>();
    shareable::<SwappableStore>();
    shareable::<occlusion::ReloadState>();
}
