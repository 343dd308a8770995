use arrow::util::KeyValueMetadata;

#[test]
fn test_from_string_vector() {
    let keys = vec!["foo", "bar"];
    let values = vec!["bizz", "buzz"];

    let meta = KeyValueMetadata::new(keys, values);
    assert_eq!(meta.keys(), &vec!["foo".to_string(), "bar".to_string()]);
    assert_eq!(meta.values(), &vec!["bizz".to_string(), "buzz".to_string()]);
}

#[test]
fn metadata_keeps_order_and_compares_by_content() {
    let a = KeyValueMetadata::new(vec!["k1", "k2"], vec!["v1", "v2"]);
    let b = KeyValueMetadata::new(vec!["k1", "k2"], vec!["v1", "v2"]);
    let c = KeyValueMetadata::new(vec!["k2", "k1"], vec!["v2", "v1"]);
    assert_eq!(a, b);
    assert!(a != c);
    let empty = KeyValueMetadata::new(vec![], vec![]);
    assert!(empty.keys().is_empty());
    assert!(empty.values().is_empty());
}
