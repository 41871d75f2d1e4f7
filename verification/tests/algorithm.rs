use occlusion::algorithm::StoreAlgorithm;

#[test]
fn test_from_str() {
    assert_eq!("hashmap".parse::<StoreAlgorithm>().unwrap(), StoreAlgorithm::HashMap);
    assert_eq!("vec".parse::<StoreAlgorithm>().unwrap(), StoreAlgorithm::Vec);
    assert_eq!("hybrid".parse::<StoreAlgorithm>().unwrap(), StoreAlgorithm::Hybrid);
    assert_eq!("fullhash".parse::<StoreAlgorithm>().unwrap(), StoreAlgorithm::FullHash);

    // Case insensitive
    assert_eq!("HASHMAP".parse::<StoreAlgorithm>().unwrap(), StoreAlgorithm::HashMap);

    // Invalid
    assert!("invalid".parse::<StoreAlgorithm>().is_err());
}

#[test]
fn test_display() {
    assert_eq!(StoreAlgorithm::HashMap.to_string(), "hashmap");
    assert_eq!(StoreAlgorithm::Vec.to_string(), "vec");
    assert_eq!(StoreAlgorithm::Hybrid.to_string(), "hybrid");
    assert_eq!(StoreAlgorithm::FullHash.to_string(), "fullhash");
}

#[test]
fn test_default() {
    assert_eq!(StoreAlgorithm::default(), StoreAlgorithm::HashMap);
}
