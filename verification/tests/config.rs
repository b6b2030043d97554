use awsts::config::{CliConfig, Config, ConfigFile, Credentials};
use awsts::error::CliError;
use std::path::PathBuf;

fn fresh() -> CliConfig {
    CliConfig::load(ConfigFile::Missing).unwrap()
}

fn token() -> Credentials {
    Credentials {
        access_key_id: "ASIAEXAMPLE".to_string(),
        secret_access_key: "secret".to_string(),
        session_token: "token".to_string(),
        expiration: "2030-01-02T03:04:05Z".to_string(),
    }
}

fn sorted(mut roles: Vec<(String, String)>) -> Vec<(String, String)> {
    roles.sort();
    roles
}

fn pair(alias: &str, arn: &str) -> (String, String) {
    (alias.to_string(), arn.to_string())
}

#[test]
fn load_of_a_missing_file_gives_the_defaults() {
    let config = fresh();
    assert_eq!(config.get_mfa(), "");
    assert_eq!(config.get_session_name(), "default");
    assert_eq!(config.get_region(), "us-east-1");
    assert!(config.get_roles().is_empty());
    assert!(config.get_session_token().is_none());
    let stored = config.options();
    assert_eq!(stored.region, Some("us-east-1".to_string()));
}

#[test]
fn load_of_an_unreadable_file_is_an_io_error() {
    let err = std::io::Error::new(std::io::ErrorKind::PermissionDenied, "denied");
    match CliConfig::load(ConfigFile::Unreadable(err)) {
        Err(CliError::Io(inner)) => {
            assert_eq!(inner.kind(), std::io::ErrorKind::PermissionDenied);
            assert_eq!(inner.to_string(), "denied");
        }
        _ => panic!("expected an Io error"),
    }
}

#[test]
fn load_of_a_malformed_file_is_a_serde_error() {
    let err = serde_json::from_str::<serde_json::Value>("{").unwrap_err();
    let text = err.to_string();
    match CliConfig::load(ConfigFile::Malformed(err)) {
        Err(CliError::Serde(inner)) => assert_eq!(inner.to_string(), text),
        _ => panic!("expected a Serde error"),
    }
}

#[test]
fn load_of_a_stored_configuration_keeps_every_field() {
    let stored = Config {
        mfa_serial_number: "arn:aws:iam::123:mfa/user".to_string(),
        session_name: "work".to_string(),
        region: None,
        roles: vec![pair("prod", "arn:aws:iam::1:role/Prod"), pair("dev", "arn:aws:iam::1:role/Dev")],
        session_token: Some(token()),
    };
    let config = CliConfig::load(ConfigFile::Stored(stored)).unwrap();
    assert_eq!(config.get_mfa(), "arn:aws:iam::123:mfa/user");
    assert_eq!(config.get_session_name(), "work");
    assert_eq!(config.get_region(), "us-east-1");
    assert_eq!(config.options().region, None);
    assert_eq!(
        sorted(config.get_roles()),
        vec![pair("dev", "arn:aws:iam::1:role/Dev"), pair("prod", "arn:aws:iam::1:role/Prod")]
    );
    let kept = config.get_session_token().unwrap();
    assert_eq!(kept.access_key_id, "ASIAEXAMPLE");
    assert_eq!(kept.secret_access_key, "secret");
    assert_eq!(kept.session_token, "token");
    assert_eq!(kept.expiration, "2030-01-02T03:04:05Z");
}

#[test]
fn load_of_a_stored_configuration_takes_the_last_pair_of_an_alias() {
    let stored = Config {
        mfa_serial_number: String::new(),
        session_name: "default".to_string(),
        region: Some("eu-west-1".to_string()),
        roles: vec![pair("prod", "first"), pair("dev", "other"), pair("prod", "second")],
        session_token: None,
    };
    let config = CliConfig::load(ConfigFile::Stored(stored)).unwrap();
    assert_eq!(config.get_role_arn("prod"), Some(&"second".to_string()));
    assert_eq!(config.get_role_arn("dev"), Some(&"other".to_string()));
    assert_eq!(sorted(config.get_roles()), vec![pair("dev", "other"), pair("prod", "second")]);
}

#[test]
fn what_is_written_down_loads_as_the_same_configuration() {
    let mut config = fresh();
    config.set_mfa("arn:aws:iam::123:mfa/user");
    config.set_session_name("laptop");
    config.set_region("ap-southeast-2");
    config.add_role("prod", "arn:aws:iam::123456789012:role/Prod");
    config.add_role("dev", "arn:aws:iam::123456789012:role/Dev");
    config.set_session_token(token());

    let again = CliConfig::load(ConfigFile::Stored(config.options())).unwrap();
    assert_eq!(again.get_mfa(), config.get_mfa());
    assert_eq!(again.get_session_name(), config.get_session_name());
    assert_eq!(again.options().region, config.options().region);
    assert_eq!(sorted(again.get_roles()), sorted(config.get_roles()));
    let (a, b) = (again.get_session_token().unwrap(), config.get_session_token().unwrap());
    assert_eq!(a.access_key_id, b.access_key_id);
    assert_eq!(a.secret_access_key, b.secret_access_key);
    assert_eq!(a.session_token, b.session_token);
    assert_eq!(a.expiration, b.expiration);
}

#[test]
fn config_path_is_the_file_config_under_the_program_directory() {
    let path = CliConfig::config_path(Some(PathBuf::from("/home/alice/.config")), "awsts").unwrap();
    assert_eq!(path, PathBuf::from("/home/alice/.config").join("awsts").join("config"));
    assert_ne!(path, PathBuf::from("/home/alice/.config"));
}

#[test]
fn config_path_without_a_directory_is_an_error() {
    assert!(matches!(
        CliConfig::config_path(None, "awsts"),
        Err(CliError::ConfigDirectoryNotAvailable())
    ));
}

#[test]
fn construct_path_gives_a_path_or_the_missing_directory_error() {
    match CliConfig::construct_path("awsts") {
        Ok(path) => assert!(path.ends_with(PathBuf::from("awsts").join("config"))),
        Err(err) => assert!(matches!(err, CliError::ConfigDirectoryNotAvailable())),
    }
}

#[test]
fn set_mfa_then_get_mfa() {
    let mut config = fresh();
    config.set_mfa("arn:aws:iam::123:mfa/user");
    assert_eq!(config.get_mfa(), "arn:aws:iam::123:mfa/user");
    assert_eq!(config.get_session_name(), "default");
    config.set_mfa("");
    assert_eq!(config.get_mfa(), "");
}

#[test]
fn set_session_name_then_get_session_name() {
    let mut config = fresh();
    config.set_session_name("laptop");
    assert_eq!(config.get_session_name(), "laptop");
    assert_eq!(config.get_mfa(), "");
}

#[test]
fn region_is_the_default_where_none_is_stored() {
    let stored = Config {
        mfa_serial_number: String::new(),
        session_name: String::new(),
        region: None,
        roles: Vec::new(),
        session_token: None,
    };
    let config = CliConfig::load(ConfigFile::Stored(stored)).unwrap();
    assert_eq!(config.get_region(), "us-east-1");
}

#[test]
fn region_is_the_default_where_the_empty_name_is_stored() {
    let mut config = fresh();
    config.set_region("");
    assert_eq!(config.get_region(), "us-east-1");
    assert_eq!(config.options().region, Some(String::new()));
}

#[test]
fn region_is_the_one_that_was_set() {
    let mut config = fresh();
    config.set_region("eu-central-1");
    assert_eq!(config.get_region(), "eu-central-1");
    config.set_region("not a region");
    assert_eq!(config.get_region(), "not a region");
}

#[test]
fn add_role_then_get_role_arn() {
    let mut config = fresh();
    config.add_role("prod", "arn:aws:iam::123456789012:role/Prod");
    assert_eq!(
        config.get_role_arn("prod"),
        Some(&"arn:aws:iam::123456789012:role/Prod".to_string())
    );
    assert_eq!(config.get_role_arn("dev"), None);
    assert_eq!(config.get_role_arn("Prod"), None);
}

#[test]
fn add_role_again_overwrites_the_identifier() {
    let mut config = fresh();
    config.add_role("prod", "one");
    config.add_role("dev", "two");
    config.add_role("prod", "three");
    assert_eq!(config.get_role_arn("prod"), Some(&"three".to_string()));
    assert_eq!(config.get_role_arn("dev"), Some(&"two".to_string()));
    assert_eq!(sorted(config.get_roles()), vec![pair("dev", "two"), pair("prod", "three")]);
}

#[test]
fn remove_role_then_get_role_arn() {
    let mut config = fresh();
    config.add_role("prod", "one");
    config.add_role("dev", "two");
    config.add_role("test", "three");
    config.remove_role("dev");
    assert_eq!(config.get_role_arn("dev"), None);
    assert_eq!(config.get_role_arn("prod"), Some(&"one".to_string()));
    assert_eq!(config.get_role_arn("test"), Some(&"three".to_string()));
    assert_eq!(sorted(config.get_roles()), vec![pair("prod", "one"), pair("test", "three")]);
}

#[test]
fn remove_role_of_an_unknown_alias_changes_nothing() {
    let mut config = fresh();
    config.add_role("prod", "one");
    config.remove_role("dev");
    assert_eq!(config.get_roles(), vec![pair("prod", "one")]);
    config.remove_role("prod");
    config.remove_role("prod");
    assert!(config.get_roles().is_empty());
}

#[test]
fn roles_with_empty_alias_and_identifier() {
    let mut config = fresh();
    config.add_role("", "");
    assert_eq!(config.get_role_arn(""), Some(&String::new()));
    config.remove_role("");
    assert_eq!(config.get_role_arn(""), None);
}

#[test]
fn set_session_token_replaces_the_whole_token() {
    let mut config = fresh();
    assert!(config.get_session_token().is_none());
    config.set_session_token(token());
    config.set_session_token(Credentials {
        access_key_id: "A2".to_string(),
        secret_access_key: "S2".to_string(),
        session_token: "T2".to_string(),
        expiration: "E2".to_string(),
    });
    let kept = config.get_session_token().unwrap();
    assert_eq!(kept.access_key_id, "A2");
    assert_eq!(kept.secret_access_key, "S2");
    assert_eq!(kept.session_token, "T2");
    assert_eq!(kept.expiration, "E2");
}

#[test]
fn setters_leave_the_other_fields() {
    let mut config = fresh();
    config.add_role("prod", "one");
    config.set_session_token(token());
    config.set_mfa("serial");
    config.set_region("eu-west-1");
    config.set_session_name("name");
    config.remove_role("none");
    let stored = config.options();
    assert_eq!(stored.mfa_serial_number, "serial");
    assert_eq!(stored.session_name, "name");
    assert_eq!(stored.region, Some("eu-west-1".to_string()));
    assert_eq!(stored.roles, vec![pair("prod", "one")]);
    assert_eq!(stored.session_token.unwrap().access_key_id, "ASIAEXAMPLE");
}

#[test]
fn credentials_clone_copies_the_four_fields() {
    let first = token();
    let copy = first.clone();
    assert_eq!(copy.access_key_id, first.access_key_id);
    assert_eq!(copy.secret_access_key, first.secret_access_key);
    assert_eq!(copy.session_token, first.session_token);
    assert_eq!(copy.expiration, first.expiration);
}
