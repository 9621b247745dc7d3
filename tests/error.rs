use container_expl::error::DataStoreError;

#[test]
fn io_error_means_disconnect() {
    let e = std::io::Error::new(std::io::ErrorKind::BrokenPipe, "gone");
    match DataStoreError::from(e) {
        DataStoreError::Disconnect(inner) => assert_eq!(inner.kind(), std::io::ErrorKind::BrokenPipe),
        _ => panic!("expected Disconnect"),
    }
}

#[test]
fn variants_hold_their_values() {
    let e = DataStoreError::InvalidHeader { expected: String::from("v1"), found: String::from("v2") };
    assert!(matches!(e, DataStoreError::InvalidHeader { ref expected, ref found } if expected == "v1" && found == "v2"));
    assert!(matches!(DataStoreError::Redaction(String::from("k")), DataStoreError::Redaction(_)));
    assert!(matches!(DataStoreError::Unknown, DataStoreError::Unknown));
}
