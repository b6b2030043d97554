use awsts::error::CliError;

#[test]
fn message_of_role_not_found_names_the_alias() {
    assert_eq!(CliError::RoleNotFound("foo".to_string()).message(), "Role foo not found");
    assert_eq!(CliError::RoleNotFound(String::new()).message(), "Role  not found");
}

#[test]
fn message_of_no_session_token() {
    assert_eq!(
        CliError::NoSessionToken().message(),
        "No session token, use awsts login to fetch one"
    );
}

#[test]
fn message_of_no_credentials_in_response() {
    assert_eq!(
        CliError::NoCredentialsInResponse().message(),
        "No credentials provided in response"
    );
}

#[test]
fn message_of_config_directory_not_available() {
    assert_eq!(
        CliError::ConfigDirectoryNotAvailable().message(),
        "Platform has no available config directory"
    );
}

#[test]
fn message_of_a_service_error_is_its_text() {
    assert_eq!(CliError::RusotoError("access denied".to_string()).message(), "access denied");
}

#[test]
fn message_of_an_io_error_is_its_own() {
    let err = std::io::Error::new(std::io::ErrorKind::NotFound, "no such file");
    assert_eq!(CliError::Io(err).message(), "no such file");
}

#[test]
fn message_of_a_serde_error_is_its_own() {
    let err = serde_json::from_str::<serde_json::Value>("[1,").unwrap_err();
    let text = err.to_string();
    assert!(!text.is_empty());
    assert_eq!(CliError::Serde(err).message(), text);
}

#[test]
fn message_of_a_date_time_error_is_its_own() {
    let err = chrono::DateTime::parse_from_rfc3339("yesterday").unwrap_err();
    let text = err.to_string();
    assert!(!text.is_empty());
    assert_eq!(CliError::DateTimeParseFailure(err).message(), text);
}

#[test]
fn from_an_io_error() {
    let err = std::io::Error::new(std::io::ErrorKind::Other, "broken");
    assert!(matches!(CliError::from(err), CliError::Io(inner) if inner.to_string() == "broken"));
}

#[test]
fn from_a_serde_error() {
    let err = serde_json::from_str::<serde_json::Value>("nope").unwrap_err();
    assert!(matches!(CliError::from(err), CliError::Serde(_)));
}

#[test]
fn from_a_date_time_error() {
    let err = chrono::DateTime::parse_from_rfc3339("").unwrap_err();
    assert!(matches!(CliError::from(err), CliError::DateTimeParseFailure(inner) if inner == err));
}
