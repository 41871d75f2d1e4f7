use occlusion::HybridAuthStore;
use occlusion::Store;
use occlusion::StoreError;
use uuid::Uuid;

fn uuid_from_u128(n: u128) -> u128 {
    Uuid::from_u128(n).as_u128()
}

fn percentage(part: usize, whole: usize) -> f64 {
    if whole > 0 {
        (part as f64 / whole as f64) * 100.0
    } else {
        0.0
    }
}

#[test]
fn store_hybrid_test_new_partitions_correctly() {
    let entries = vec![
        (uuid_from_u128(1), 0),
        (uuid_from_u128(2), 5),
        (uuid_from_u128(3), 0),
        (uuid_from_u128(4), 10),
    ];
    let store = HybridAuthStore::new(entries).unwrap();

    let stats = store.distribution_stats();
    assert_eq!(stats.level_0_count, 2);
    assert_eq!(stats.higher_levels_count, 2);
}

#[test]
fn store_hybrid_test_duplicate_detection() {
    let uuid = uuid_from_u128(42);

    // Duplicate in level 0
    let entries = vec![(uuid, 0), (uuid, 0)];
    assert!(HybridAuthStore::new(entries).is_err());

    // Duplicate in higher levels
    let entries = vec![(uuid, 5), (uuid, 10)];
    assert!(HybridAuthStore::new(entries).is_err());

    // Duplicate across level 0 and higher
    let entries = vec![(uuid, 0), (uuid, 5)];
    assert!(HybridAuthStore::new(entries).is_err());
}

#[test]
fn store_hybrid_test_get_visibility() {
    let uuid0 = uuid_from_u128(1);
    let uuid5 = uuid_from_u128(2);
    let uuid10 = uuid_from_u128(3);
    let uuid_missing = uuid_from_u128(999);

    let entries = vec![(uuid0, 0), (uuid5, 5), (uuid10, 10)];
    let store = HybridAuthStore::new(entries).unwrap();

    assert_eq!(store.get_visibility(&uuid0), Some(0));
    assert_eq!(store.get_visibility(&uuid5), Some(5));
    assert_eq!(store.get_visibility(&uuid10), Some(10));
    assert_eq!(store.get_visibility(&uuid_missing), None);
}

#[test]
fn store_hybrid_test_is_visible_level_0() {
    let uuid = uuid_from_u128(1);
    let entries = vec![(uuid, 0)];
    let store = HybridAuthStore::new(entries).unwrap();

    // Level 0 is visible at all masks
    assert!(store.is_visible(&uuid, 0));
    assert!(store.is_visible(&uuid, 10));
    assert!(store.is_visible(&uuid, 255));
}

#[test]
fn store_hybrid_test_is_visible_higher_levels() {
    let uuid = uuid_from_u128(1);
    let entries = vec![(uuid, 8)];
    let store = HybridAuthStore::new(entries).unwrap();

    assert!(store.is_visible(&uuid, 10)); // 8 <= 10
    assert!(store.is_visible(&uuid, 8)); // 8 <= 8
    assert!(!store.is_visible(&uuid, 7)); // 8 > 7
    assert!(!store.is_visible(&uuid, 0)); // 8 > 0
}

#[test]
fn store_hybrid_test_is_visible_missing_uuid() {
    let uuid = uuid_from_u128(999);
    let entries = vec![(uuid_from_u128(1), 0)];
    let store = HybridAuthStore::new(entries).unwrap();

    assert!(!store.is_visible(&uuid, 255));
}

#[test]
fn store_hybrid_test_check_batch() {
    let uuid1 = uuid_from_u128(1);
    let uuid2 = uuid_from_u128(2);
    let uuid3 = uuid_from_u128(3);

    let entries = vec![(uuid1, 0), (uuid2, 10), (uuid3, 15)];
    let store = HybridAuthStore::new(entries).unwrap();

    let results: Vec<bool> = [uuid1, uuid2, uuid3]
        .iter()
        .map(|uuid| store.is_visible(uuid, 10))
        .collect();
    assert_eq!(results, vec![true, true, false]);
    assert!(!store.check_batch(&[uuid1, uuid2, uuid3], 10));
    assert!(store.check_batch(&[uuid1, uuid2], 10));
}

#[test]
fn store_hybrid_test_distribution_stats() {
    let entries = vec![
        (uuid_from_u128(1), 0),
        (uuid_from_u128(2), 0),
        (uuid_from_u128(3), 0),
        (uuid_from_u128(4), 5),
    ];
    let store = HybridAuthStore::new(entries).unwrap();

    let stats = store.distribution_stats();
    assert_eq!(stats.total_uuids, 4);
    assert_eq!(stats.level_0_count, 3);
    assert_eq!(stats.higher_levels_count, 1);
    assert!((percentage(stats.level_0_count, stats.total_uuids) - 75.0).abs() < 0.01);
}

#[test]
fn test_skewed_distribution() {
    // Simulate 90% at level 0, 10% at higher levels
    let mut entries = Vec::new();
    for i in 0..900 {
        entries.push((uuid_from_u128(i), 0));
    }
    for i in 900..1000 {
        entries.push((uuid_from_u128(i), (i % 255) as u8 + 1));
    }

    let store = HybridAuthStore::new(entries).unwrap();
    let stats = store.distribution_stats();

    assert_eq!(stats.level_0_count, 900);
    assert_eq!(stats.higher_levels_count, 100);
    assert!((percentage(stats.level_0_count, stats.total_uuids) - 90.0).abs() < 0.01);
}

#[test]
fn store_hybrid_searches_its_sides_in_turn() {
    // A repeat at level 0 is named before any repeat above it, whatever
    // the order of the list.
    let entries = vec![(9, 4), (9, 5), (8, 0), (2, 0), (8, 0), (2, 0)];
    assert_eq!(HybridAuthStore::new(entries).err(), Some(StoreError::DuplicateUuid(8)));
    // Without one, the smallest repeat above level 0 is named.
    let entries = vec![(9, 4), (3, 1), (9, 5), (3, 2), (1, 0)];
    assert_eq!(HybridAuthStore::new(entries).err(), Some(StoreError::DuplicateUuid(3)));
    // Without either, the smallest UUID that stands on both sides.
    let entries = vec![(9, 4), (3, 1), (9, 0), (3, 0), (1, 0)];
    assert_eq!(HybridAuthStore::new(entries).err(), Some(StoreError::DuplicateUuid(3)));
}

#[test]
fn store_hybrid_len_and_distribution() {
    let empty = HybridAuthStore::new(vec![]).unwrap();
    assert!(empty.is_empty());
    assert_eq!(empty.len(), 0);
    assert_eq!(empty.visibility_distribution().len(), 0);

    let store = HybridAuthStore::new(vec![(1, 0), (2, 0), (3, 7), (4, 7), (5, 255)]).unwrap();
    assert!(!store.is_empty());
    assert_eq!(store.len(), 5);
    let distribution = store.visibility_distribution();
    assert_eq!(distribution.len(), 3);
    assert_eq!(distribution.get(&0), Some(&2));
    assert_eq!(distribution.get(&7), Some(&2));
    assert_eq!(distribution.get(&255), Some(&1));

    let only_higher = HybridAuthStore::new(vec![(3, 7)]).unwrap();
    assert_eq!(only_higher.visibility_distribution().get(&0), None);
    assert!(!only_higher.is_empty());
}
