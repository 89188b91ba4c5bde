use aubo_rs::error::{AuboError, ConfigError, ErrorContext, FilterError, ZygiskError};

#[test]
fn test_error_display() {
    let config_error = ConfigError::InvalidValue {
        key: "max_connections".to_string(),
        value: "invalid".to_string(),
    };
    let aubo_error = AuboError::Config(config_error);

    assert!(aubo_error.message().contains("Configuration error"));
    assert!(aubo_error.message().contains("max_connections"));
}

#[test]
fn test_error_context() {
    let result: std::result::Result<(), std::io::Error> =
        Err(std::io::Error::new(std::io::ErrorKind::NotFound, "test"));

    let with_context = result.context("Failed to read file");
    assert!(with_context.is_err());
    assert!(with_context.unwrap_err().message().contains("Failed to read file"));
}

#[test]
fn error_texts() {
    assert_eq!(
        AuboError::Filter(FilterError::ListNotFound { name: "x".to_string() }).message(),
        "Filter engine error: Filter list not found: x"
    );
    assert_eq!(
        ZygiskError::VersionMismatch { expected: 3, actual: 12 }.message(),
        "ZygiskNext API version mismatch: expected 3, got 12"
    );
}

#[test]
fn context_wraps_library_errors_and_keeps_success() {
    let failed: Result<u8, AuboError> = Err(AuboError::Shutdown("late".to_string()));
    match failed.with_context(|| "stopping".to_string()) {
        Err(AuboError::Generic { message }) => {
            assert_eq!(message, "stopping: Shutdown error: late")
        }
        other => panic!("unexpected {:?}", other),
    }
    let fine: Result<u8, AuboError> = Ok(7);
    assert_eq!(fine.context("unused"), Ok(7));
}
