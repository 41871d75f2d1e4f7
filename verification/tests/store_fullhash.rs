use occlusion::FullHashStore;
use occlusion::Store;
use occlusion::StoreError;
use uuid::Uuid;

fn uuid_from_u128(n: u128) -> u128 {
    Uuid::from_u128(n).as_u128()
}

fn percentage(part: usize, whole: usize) -> f64 {
    if whole > 0 {
        (part as f64 / whole as f64) * 100.0
    } else {
        0.0
    }
}

#[test]
fn store_fullhash_test_new_partitions_correctly() {
    let entries = vec![
        (uuid_from_u128(1), 0),
        (uuid_from_u128(2), 5),
        (uuid_from_u128(3), 0),
        (uuid_from_u128(4), 10),
    ];
    let store = FullHashStore::new(entries).unwrap();

    let by_level = store.visibility_distribution();
    assert_eq!(by_level.get(&0), Some(&2));
    assert_eq!(by_level.get(&5), Some(&1));
    assert_eq!(by_level.get(&10), Some(&1));
}

#[test]
fn store_fullhash_test_duplicate_detection() {
    let uuid = uuid_from_u128(42);

    // Duplicate in same level
    let entries = vec![(uuid, 0), (uuid, 0)];
    assert!(FullHashStore::new(entries).is_err());

    // Duplicate in different levels (still an error)
    let entries = vec![(uuid, 0), (uuid, 5)];
    assert!(FullHashStore::new(entries).is_err());
}

#[test]
fn store_fullhash_test_get_visibility() {
    let uuid0 = uuid_from_u128(1);
    let uuid5 = uuid_from_u128(2);
    let uuid10 = uuid_from_u128(3);
    let uuid_missing = uuid_from_u128(999);

    let entries = vec![(uuid0, 0), (uuid5, 5), (uuid10, 10)];
    let store = FullHashStore::new(entries).unwrap();

    assert_eq!(store.get_visibility(&uuid0), Some(0));
    assert_eq!(store.get_visibility(&uuid5), Some(5));
    assert_eq!(store.get_visibility(&uuid10), Some(10));
    assert_eq!(store.get_visibility(&uuid_missing), None);
}

#[test]
fn store_fullhash_test_is_visible_level_0() {
    let uuid = uuid_from_u128(1);
    let entries = vec![(uuid, 0)];
    let store = FullHashStore::new(entries).unwrap();

    // Level 0 is visible at all masks
    assert_eq!(store.is_visible(&uuid, 0), true);
    assert_eq!(store.is_visible(&uuid, 10), true);
    assert_eq!(store.is_visible(&uuid, 255), true);
}

#[test]
fn store_fullhash_test_is_visible_higher_levels() {
    let uuid = uuid_from_u128(1);
    let entries = vec![(uuid, 8)];
    let store = FullHashStore::new(entries).unwrap();

    assert_eq!(store.is_visible(&uuid, 10), true); // 8 <= 10
    assert_eq!(store.is_visible(&uuid, 8), true); // 8 <= 8
    assert_eq!(store.is_visible(&uuid, 7), false); // 8 > 7
    assert_eq!(store.is_visible(&uuid, 0), false); // 8 > 0
}

#[test]
fn store_fullhash_test_is_visible_missing_uuid() {
    let uuid = uuid_from_u128(999);
    let entries = vec![(uuid_from_u128(1), 0)];
    let store = FullHashStore::new(entries).unwrap();

    assert_eq!(store.is_visible(&uuid, 255), false);
}

#[test]
fn store_fullhash_test_check_batch() {
    let uuid1 = uuid_from_u128(1);
    let uuid2 = uuid_from_u128(2);
    let uuid3 = uuid_from_u128(3);

    let entries = vec![(uuid1, 0), (uuid2, 10), (uuid3, 15)];
    let store = FullHashStore::new(entries).unwrap();

    let results: Vec<bool> = [uuid1, uuid2, uuid3]
        .iter()
        .map(|uuid| store.is_visible(uuid, 10))
        .collect();
    assert_eq!(results, vec![true, true, false]);
    assert!(!store.check_batch(&[uuid1, uuid2, uuid3], 10));
    assert!(store.check_batch(&[uuid1, uuid2], 10));
}

#[test]
fn store_fullhash_test_len_and_is_empty() {
    let empty_store = FullHashStore::new(vec![]).unwrap();
    assert!(empty_store.is_empty());
    assert_eq!(empty_store.len(), 0);

    let store = FullHashStore::new(vec![(uuid_from_u128(1), 5)]).unwrap();
    assert!(!store.is_empty());
    assert_eq!(store.len(), 1);
}

#[test]
fn store_fullhash_test_distribution_stats() {
    let entries = vec![
        (uuid_from_u128(1), 0),
        (uuid_from_u128(2), 0),
        (uuid_from_u128(3), 0),
        (uuid_from_u128(4), 5),
    ];
    let store = FullHashStore::new(entries).unwrap();

    let stats = store.distribution_stats();
    assert_eq!(stats.total_uuids, 4);
    assert_eq!(stats.level_0_count, 3);
    assert_eq!(stats.higher_levels_count, 1);
    assert!((percentage(stats.level_0_count, stats.total_uuids) - 75.0).abs() < 0.01);
}

#[test]
fn store_fullhash_names_first_repeat_in_list_order() {
    let entries = vec![(7, 1), (3, 1), (5, 2), (3, 9), (7, 0)];
    assert_eq!(FullHashStore::new(entries).err(), Some(StoreError::DuplicateUuid(3)));
}

#[test]
fn store_fullhash_looks_at_the_highest_level() {
    let store = FullHashStore::new(vec![(1, 255), (2, 254)]).unwrap();
    assert!(store.is_visible(&1, 255));
    assert!(!store.is_visible(&1, 254));
    assert!(store.is_visible(&2, 254));
    assert_eq!(store.get_visibility(&1), Some(255));
    assert_eq!(store.len(), 2);
    assert_eq!(store.visibility_distribution().get(&255), Some(&1));
}
