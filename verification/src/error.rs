use vstd::prelude::*;
use vstd::std_specs::convert::FromSpecImpl;
use vstd::string::*;

verus! {

/// std's `std::io::Error`, carried as it is: nothing is known of what it holds.
#[verifier::external_type_specification]
#[verifier::external_body]
pub struct ExIoError(std::io::Error);

/// serde_json's `Error`, carried as it is: nothing is known of what it holds.
#[verifier::external_type_specification]
#[verifier::external_body]
pub struct ExJsonError(serde_json::Error);

/// chrono's `format::ParseError`, carried as it is: nothing is known of what
/// it holds.
#[verifier::external_type_specification]
#[verifier::external_body]
pub struct ExParseError(chrono::format::ParseError);

/// Everything that ends an invocation early. Each error is made where the
/// failure shows and handed up as it is.
#[derive(Debug)]
pub enum CliError {
    /// The file system refused something.
    Io(std::io::Error),
    /// The configuration file is there and does not have the form of one.
    Serde(serde_json::Error),
    /// The alias stands for no role.
    RoleNotFound(String),
    /// Role credentials were asked for and no session token is kept.
    NoSessionToken(),
    /// The expiration of the session token that is kept is no RFC 3339
    /// timestamp.
    DateTimeParseFailure(chrono::format::ParseError),
    /// The identity service, or the search for credentials to sign a request
    /// to it, failed; this is its message.
    RusotoError(String),
    /// The identity service answered without credentials.
    NoCredentialsInResponse(),
    /// The platform names no directory for configuration files.
    ConfigDirectoryNotAvailable(),
}

impl CliError {
    /// The text that tells the user of the error. That of an error from
    /// outside is what its own `Display` writes.
    pub fn message(&self) -> (text: String)
        ensures
            match self {
                CliError::Io(err) => to_string_from_display_ensures::<std::io::Error>(err, text),
                CliError::Serde(err) => to_string_from_display_ensures::<serde_json::Error>(
                    err,
                    text,
                ),
                CliError::RoleNotFound(role) => text@ == "Role "@ + role@ + " not found"@,
                CliError::NoSessionToken() => text@
                    == "No session token, use awsts login to fetch one"@,
                CliError::DateTimeParseFailure(err) => to_string_from_display_ensures::<
                    chrono::format::ParseError,
                >(err, text),
                CliError::RusotoError(err) => text@ == err@,
                CliError::NoCredentialsInResponse() => text@
                    == "No credentials provided in response"@,
                CliError::ConfigDirectoryNotAvailable() => text@
                    == "Platform has no available config directory"@,
            },
    {
        match self {
            CliError::Io(err) => err.to_string(),
            CliError::Serde(err) => err.to_string(),
            CliError::RoleNotFound(role) => {
                String::from_str("Role ").concat(role.as_str()).concat(" not found")
            },
            CliError::NoSessionToken() => String::from_str(
                "No session token, use awsts login to fetch one",
            ),
            CliError::DateTimeParseFailure(err) => err.to_string(),
            CliError::RusotoError(err) => err.clone(),
            CliError::NoCredentialsInResponse() => String::from_str(
                "No credentials provided in response",
            ),
            CliError::ConfigDirectoryNotAvailable() => String::from_str(
                "Platform has no available config directory",
            ),
        }
    }
}

impl From<std::io::Error> for CliError {
    fn from(err: std::io::Error) -> (res: CliError) {
        CliError::Io(err)
    }
}

impl FromSpecImpl<std::io::Error> for CliError {
    open spec fn obeys_from_spec() -> bool {
        true
    }

    open spec fn from_spec(err: std::io::Error) -> CliError {
        CliError::Io(err)
    }
}

impl From<serde_json::Error> for CliError {
    fn from(err: serde_json::Error) -> (res: CliError) {
        CliError::Serde(err)
    }
}

impl FromSpecImpl<serde_json::Error> for CliError {
    open spec fn obeys_from_spec() -> bool {
        true
    }

    open spec fn from_spec(err: serde_json::Error) -> CliError {
        CliError::Serde(err)
    }
}

impl From<chrono::format::ParseError> for CliError {
    fn from(err: chrono::format::ParseError) -> (res: CliError) {
        CliError::DateTimeParseFailure(err)
    }
}

impl FromSpecImpl<chrono::format::ParseError> for CliError {
    open spec fn obeys_from_spec() -> bool {
        true
    }

    open spec fn from_spec(err: chrono::format::ParseError) -> CliError {
        CliError::DateTimeParseFailure(err)
    }
}

} // verus!
