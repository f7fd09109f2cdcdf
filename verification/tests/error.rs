use footpedal::error::DataStoreError;

#[test]
fn redaction_carries_its_key() {
    let e = DataStoreError::Redaction(String::from("pedal"));
    assert!(matches!(e, DataStoreError::Redaction(_)));
    assert_eq!(e.key(), "pedal");
}
