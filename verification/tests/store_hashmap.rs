use occlusion::HashMapStore;
use occlusion::Store;
use occlusion::StoreError;
use uuid::Uuid;

fn uuid_from_u128(n: u128) -> u128 {
    Uuid::from_u128(n).as_u128()
}

#[test]
fn test_new_stores_correctly() {
    let entries = vec![
        (uuid_from_u128(1), 0),
        (uuid_from_u128(2), 5),
        (uuid_from_u128(3), 10),
    ];
    let store = HashMapStore::new(entries).unwrap();

    assert_eq!(store.len(), 3);
}

#[test]
fn store_hashmap_test_duplicate_detection() {
    let uuid = uuid_from_u128(42);
    let entries = vec![(uuid, 0), (uuid, 5)];
    assert!(HashMapStore::new(entries).is_err());
}

#[test]
fn store_hashmap_test_get_visibility() {
    let uuid0 = uuid_from_u128(1);
    let uuid5 = uuid_from_u128(2);
    let uuid10 = uuid_from_u128(3);
    let uuid_missing = uuid_from_u128(999);

    let entries = vec![(uuid0, 0), (uuid5, 5), (uuid10, 10)];
    let store = HashMapStore::new(entries).unwrap();

    assert_eq!(Store::get_visibility(&store, &uuid0), Some(0));
    assert_eq!(Store::get_visibility(&store, &uuid5), Some(5));
    assert_eq!(Store::get_visibility(&store, &uuid10), Some(10));
    assert_eq!(Store::get_visibility(&store, &uuid_missing), None);
}

#[test]
fn store_hashmap_test_is_visible_level_0() {
    let uuid = uuid_from_u128(1);
    let entries = vec![(uuid, 0)];
    let store = HashMapStore::new(entries).unwrap();

    // Level 0 is visible at all masks
    assert!(Store::is_visible(&store, &uuid, 0));
    assert!(Store::is_visible(&store, &uuid, 10));
    assert!(Store::is_visible(&store, &uuid, 255));
}

#[test]
fn store_hashmap_test_is_visible_higher_levels() {
    let uuid = uuid_from_u128(1);
    let entries = vec![(uuid, 8)];
    let store = HashMapStore::new(entries).unwrap();

    assert!(Store::is_visible(&store, &uuid, 10)); // 8 <= 10
    assert!(Store::is_visible(&store, &uuid, 8)); // 8 <= 8
    assert!(!Store::is_visible(&store, &uuid, 7)); // 8 > 7
    assert!(!Store::is_visible(&store, &uuid, 0)); // 8 > 0
}

#[test]
fn store_hashmap_test_is_visible_missing_uuid() {
    let uuid = uuid_from_u128(999);
    let entries = vec![(uuid_from_u128(1), 0)];
    let store = HashMapStore::new(entries).unwrap();

    assert!(!Store::is_visible(&store, &uuid, 255));
}

#[test]
fn store_hashmap_test_check_batch() {
    let uuid1 = uuid_from_u128(1);
    let uuid2 = uuid_from_u128(2);
    let uuid3 = uuid_from_u128(3);

    let entries = vec![(uuid1, 0), (uuid2, 10), (uuid3, 15)];
    let store = HashMapStore::new(entries).unwrap();

    let results: Vec<bool> = [uuid1, uuid2, uuid3]
        .iter()
        .map(|uuid| Store::is_visible(&store, uuid, 10))
        .collect();
    assert_eq!(results, vec![true, true, false]);
    assert!(!Store::check_batch(&store, &[uuid1, uuid2, uuid3], 10));
    assert!(Store::check_batch(&store, &[uuid1, uuid2, uuid3], 15));
    assert!(Store::check_batch(&store, &[uuid1, uuid2], 10));
}

#[test]
fn store_hashmap_test_len_and_is_empty() {
    let empty_store = HashMapStore::new(vec![]).unwrap();
    assert!(Store::is_empty(&empty_store));
    assert_eq!(Store::len(&empty_store), 0);

    let store = HashMapStore::new(vec![(uuid_from_u128(1), 5)]).unwrap();
    assert!(!Store::is_empty(&store));
    assert_eq!(Store::len(&store), 1);
}

#[test]
fn store_hashmap_names_first_repeat_in_list_order() {
    let entries = vec![(7, 1), (3, 1), (5, 2), (3, 9), (7, 0)];
    assert_eq!(HashMapStore::new(entries).err(), Some(StoreError::DuplicateUuid(3)));
}

#[test]
fn store_hashmap_distribution_counts_levels() {
    let entries = vec![(1, 5), (2, 5), (3, 10), (4, 5), (5, 255), (6, 0)];
    let store = HashMapStore::new(entries).unwrap();
    let distribution = store.visibility_distribution();
    assert_eq!(distribution.len(), 4);
    assert_eq!(distribution.get(&5), Some(&3));
    assert_eq!(distribution.get(&10), Some(&1));
    assert_eq!(distribution.get(&255), Some(&1));
    assert_eq!(distribution.get(&0), Some(&1));
    assert_eq!(distribution.get(&15), None);
    assert_eq!(distribution.values().sum::<usize>(), store.len());
}
