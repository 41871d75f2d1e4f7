use occlusion::build_fullhash_store;
use occlusion::build_hashmap_store;
use occlusion::build_hybrid_store;
use occlusion::build_store;
use occlusion::build_vec_store;
use occlusion::ActiveStore;
use occlusion::Store;
use occlusion::StoreAlgorithm;
use occlusion::StoreError;

const U1: u128 = 0x00000000_0000_0000_0000_000000000001;
const U2: u128 = 0x00000000_0000_0000_0000_000000000002;
const U3: u128 = 0x00000000_0000_0000_0000_000000000003;
const U4: u128 = 0x00000000_0000_0000_0000_000000000004;

fn build_all(entries: &[(u128, u8)]) -> Vec<ActiveStore> {
    StoreAlgorithm::all()
        .iter()
        .map(|algorithm| ActiveStore::build(*algorithm, entries.to_vec()).unwrap())
        .collect()
}

fn sample() -> Vec<(u128, u8)> {
    let mut entries = Vec::new();
    let mut uuid: u128 = 0x9e3779b97f4a7c15f39cc0605cedc834;
    for n in 0..300u32 {
        uuid = uuid.wrapping_mul(0x2545f4914f6cdd1d).wrapping_add(n as u128 + 1);
        let level = match n % 5 {
            0 | 1 | 2 => 0,
            3 => (n % 256) as u8,
            _ => 255,
        };
        entries.push((uuid, level));
    }
    entries
}

#[test]
fn three_levels_end_to_end() {
    for store in build_all(&[(U1, 0), (U2, 5), (U3, 10)]) {
        assert!(store.is_visible(&U1, 0));
        assert!(!store.is_visible(&U2, 4));
        assert!(store.is_visible(&U2, 5));
        assert!(!store.is_visible(&U3, 9));
        assert!(store.check_batch(&[U1, U2, U3], 10));
        assert!(!store.check_batch(&[U1, U2, U3], 5));
    }
}

#[test]
fn one_entry_in_the_middle_end_to_end() {
    for store in build_all(&[(U1, 128)]) {
        assert!(!store.is_visible(&U1, 127));
        assert!(store.is_visible(&U1, 128));
        assert!(store.is_visible(&U1, 255));
    }
}

#[test]
fn duplicate_end_to_end() {
    for algorithm in StoreAlgorithm::all() {
        let built = ActiveStore::build(algorithm, vec![(U1, 0), (U1, 5)]);
        assert_eq!(built.err(), Some(StoreError::DuplicateUuid(U1)));
    }
    assert_eq!(build_store(vec![(U1, 0), (U1, 5)]).err(), Some(StoreError::DuplicateUuid(U1)));
    assert_eq!(build_hashmap_store(vec![(U1, 5), (U1, 5)]).err(), Some(StoreError::DuplicateUuid(U1)));
    assert_eq!(build_vec_store(vec![(U1, 5), (U1, 5)]).err(), Some(StoreError::DuplicateUuid(U1)));
    assert_eq!(build_hybrid_store(vec![(U1, 5), (U1, 5)]).err(), Some(StoreError::DuplicateUuid(U1)));
    assert_eq!(build_fullhash_store(vec![(U1, 5), (U1, 5)]).err(), Some(StoreError::DuplicateUuid(U1)));
}

#[test]
fn empty_end_to_end() {
    for store in build_all(&[]) {
        assert_eq!(store.len(), 0);
        assert!(store.is_empty());
        assert!(!store.is_visible(&U4, 255));
        assert!(store.check_batch(&[], 0));
        assert_eq!(store.visibility_distribution().len(), 0);
    }
    for algorithm in StoreAlgorithm::all() {
        let store = ActiveStore::empty(algorithm);
        assert_eq!(store.algorithm(), algorithm);
        assert_eq!(store.len(), 0);
        assert!(store.check_batch(&[], 0));
        assert!(!store.check_batch(&[U1], 255));
    }
}

#[test]
fn listed_uuids_are_visible_from_their_level() {
    let entries = sample();
    for store in build_all(&entries) {
        for (uuid, level) in entries.iter().take(60) {
            for mask in [0u8, 1, 127, 128, 254, 255] {
                assert_eq!(store.is_visible(uuid, mask), *level <= mask);
            }
            assert!(store.is_visible(uuid, *level));
            if *level > 0 {
                assert!(!store.is_visible(uuid, *level - 1));
            }
            assert_eq!(store.get_visibility(uuid), Some(*level));
        }
    }
}

#[test]
fn unlisted_uuids_are_never_visible() {
    let entries = sample();
    for store in build_all(&entries) {
        for unlisted in [0u128, 1, 2, u128::MAX, entries[0].0 + 1, entries[17].0 - 1] {
            assert!(entries.iter().all(|(uuid, _)| *uuid != unlisted));
            for mask in [0u8, 1, 128, 255] {
                assert!(!store.is_visible(&unlisted, mask));
            }
            assert_eq!(store.get_visibility(&unlisted), None);
        }
    }
}

#[test]
fn under_the_full_mask_the_listed_are_visible() {
    let entries = sample();
    for store in build_all(&entries) {
        for (uuid, _) in entries.iter() {
            assert!(store.is_visible(uuid, 255));
        }
        assert!(!store.is_visible(&5, 255));
    }
}

#[test]
fn only_level_zero_is_visible_under_mask_zero() {
    let entries = sample();
    for store in build_all(&entries) {
        for (uuid, level) in entries.iter() {
            assert_eq!(store.is_visible(uuid, 0), *level == 0);
        }
    }
}

#[test]
fn len_is_the_number_of_entries() {
    let entries = sample();
    for store in build_all(&entries) {
        assert_eq!(store.len(), entries.len());
        assert!(!store.is_empty());
    }
    for n in [0usize, 1, 2, 7] {
        for store in build_all(&entries[..n]) {
            assert_eq!(store.len(), n);
            assert_eq!(store.is_empty(), n == 0);
        }
    }
}

#[test]
fn a_batch_is_visible_iff_each_of_it_is() {
    let entries = sample();
    let batch: Vec<u128> = entries.iter().take(12).map(|(uuid, _)| *uuid).collect();
    let mut with_stranger = batch.clone();
    with_stranger.push(5);
    for store in build_all(&entries) {
        for mask in [0u8, 3, 100, 254, 255] {
            let each = batch.iter().all(|uuid| store.is_visible(uuid, mask));
            assert_eq!(store.check_batch(&batch, mask), each);
            assert!(!store.check_batch(&with_stranger, mask));
            assert!(store.check_batch(&[], mask));
        }
        assert!(store.check_batch(&batch, 255));
        assert!(!store.check_batch(&batch, 0));
        // A UUID that stands twice in the batch counts as it does once.
        assert!(store.check_batch(&[batch[0], batch[0]], 255));
    }
}

#[test]
fn the_distribution_adds_up_to_len() {
    let entries = sample();
    for store in build_all(&entries) {
        let distribution = store.visibility_distribution();
        assert_eq!(distribution.values().sum::<usize>(), store.len());
        assert_eq!(distribution.get(&0), Some(&180));
        assert_eq!(distribution.get(&255), Some(&60));
        assert!(distribution.values().all(|count| *count > 0));
        for (level, count) in distribution.iter() {
            let counted = entries.iter().filter(|(_, listed)| listed == level).count();
            assert_eq!(*count, counted);
        }
        let levels = entries.iter().map(|(_, level)| *level).collect::<std::collections::BTreeSet<u8>>();
        assert_eq!(distribution.len(), levels.len());
    }
}

#[test]
fn the_order_of_the_entries_does_not_matter() {
    let entries = sample();
    let mut reversed = entries.clone();
    reversed.reverse();
    let mut rotated = entries.clone();
    rotated.rotate_left(77);
    let probes: Vec<u128> = entries
        .iter()
        .map(|(uuid, _)| *uuid)
        .chain([0u128, 1, u128::MAX])
        .collect();
    let reference = build_store(entries.clone()).unwrap();
    for other in [reversed, rotated] {
        for store in build_all(&other) {
            assert_eq!(store.len(), reference.len());
            assert_eq!(store.visibility_distribution(), reference.visibility_distribution());
            for uuid in probes.iter() {
                assert_eq!(store.get_visibility(uuid), reference.get_visibility(uuid));
                for mask in [0u8, 77, 255] {
                    assert_eq!(store.is_visible(uuid, mask), reference.is_visible(uuid, mask));
                }
            }
        }
    }
}

#[test]
fn all_layouts_answer_alike() {
    let entries = sample();
    let stores = build_all(&entries);
    let algorithms: Vec<StoreAlgorithm> = stores.iter().map(|store| store.algorithm()).collect();
    assert_eq!(algorithms, StoreAlgorithm::all().to_vec());
    for store in stores.iter() {
        assert_eq!(store.visibility_distribution(), stores[0].visibility_distribution());
        for (uuid, _) in entries.iter() {
            assert_eq!(store.get_visibility(uuid), stores[0].get_visibility(uuid));
        }
    }
}
