use helix::HelixError;

#[test]
fn retryable_and_critical_kinds() {
    let io = HelixError::Io(std::io::Error::new(std::io::ErrorKind::Other, "disk"));
    assert!(io.is_retryable());
    assert!(!io.is_critical());
    assert!(HelixError::Device("d".to_string()).is_retryable());
    assert!(HelixError::Repository("r".to_string()).is_critical());
    assert!(HelixError::Encryption("e".to_string()).is_critical());
    assert!(!HelixError::NotFound("n".to_string()).is_retryable());
    assert!(!HelixError::Cancelled.is_critical());
}

#[test]
fn user_messages() {
    assert_eq!(HelixError::Device("sda".to_string()).user_message(), "Device operation failed: sda");
    assert_eq!(HelixError::Tracking("x".to_string()).user_message(), "Change tracking error: x");
    assert_eq!(HelixError::NotFound("snap".to_string()).user_message(), "Not found: snap");
    assert_eq!(HelixError::Cancelled.user_message(), "Operation cancelled");
    let io = HelixError::Io(std::io::Error::new(std::io::ErrorKind::Other, "disk"));
    assert_eq!(io.user_message(), "I/O error: disk");
}

#[test]
fn conversions_into_errors() {
    let e: HelixError = std::io::Error::new(std::io::ErrorKind::NotFound, "gone").into();
    assert!(matches!(e, HelixError::Io(_)));
    let j = serde_json::from_str::<u32>("x").unwrap_err();
    let e: HelixError = j.into();
    assert!(matches!(e, HelixError::Serialization(_)));
    let e: HelixError = rusqlite::Error::QueryReturnedNoRows.into();
    assert!(matches!(e, HelixError::Database(_)));
}
