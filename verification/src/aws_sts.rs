use crate::config::{view_of, CliConfig, ConfigView, Credentials, CredentialsView};
use crate::error::CliError;
use chrono::format::ParseError;
use chrono::DateTime;
use vstd::prelude::*;
use vstd::string::*;

verus! {

/// How long each step of the ambient credential chain may take, in seconds.
pub const DISCOVERY_TIMEOUT_SECONDS: u64 = 2;

/// An instant: the seconds since 1970-01-01T00:00:00Z without leap seconds,
/// and the nanoseconds since the last full second. Within a leap second the
/// nanoseconds go on counting past 999,999,999.
#[derive(Debug, Clone, Copy, PartialEq, Eq)]
pub struct Timestamp {
    pub seconds: i64,
    pub nanos: u32,
}

/// Where the credentials that sign a request for a session token come from.
#[derive(Debug)]
pub enum CredentialSource {
    /// The profile of this name among the local credential profiles.
    Profile(String),
    /// The ambient chain of credential providers, none of which is waited
    /// for longer than `timeout_seconds`.
    Chain { timeout_seconds: u64 },
}

pub enum CredentialSourceView {
    Profile(Seq<char>),
    Chain { timeout_seconds: u64 },
}

impl View for CredentialSource {
    type V = CredentialSourceView;

    open spec fn view(&self) -> CredentialSourceView {
        match self {
            CredentialSource::Profile(name) => CredentialSourceView::Profile(name@),
            CredentialSource::Chain { timeout_seconds } => CredentialSourceView::Chain {
                timeout_seconds: *timeout_seconds,
            },
        }
    }
}

/// A request for a session token, to be signed with the credentials that
/// `source` yields and sent to the identity service of `region`.
#[derive(Debug)]
pub struct SessionTokenCall {
    pub source: CredentialSource,
    pub region: String,
    pub serial_number: String,
    pub token_code: String,
}

pub struct SessionTokenCallView {
    pub source: CredentialSourceView,
    pub region: Seq<char>,
    pub serial_number: Seq<char>,
    pub token_code: Seq<char>,
}

impl View for SessionTokenCall {
    type V = SessionTokenCallView;

    open spec fn view(&self) -> SessionTokenCallView {
        SessionTokenCallView {
            source: self.source@,
            region: self.region@,
            serial_number: self.serial_number@,
            token_code: self.token_code@,
        }
    }
}

/// Credentials that are used as they are, until `expires_at`.
#[derive(Debug)]
pub struct StaticCredentials {
    pub access_key_id: String,
    pub secret_access_key: String,
    pub session_token: String,
    pub expires_at: Timestamp,
}

pub struct StaticCredentialsView {
    pub access_key_id: Seq<char>,
    pub secret_access_key: Seq<char>,
    pub session_token: Seq<char>,
    pub expires_at: Timestamp,
}

impl View for StaticCredentials {
    type V = StaticCredentialsView;

    open spec fn view(&self) -> StaticCredentialsView {
        StaticCredentialsView {
            access_key_id: self.access_key_id@,
            secret_access_key: self.secret_access_key@,
            session_token: self.session_token@,
            expires_at: self.expires_at,
        }
    }
}

/// A request to assume the role `role_arn` under the session name
/// `role_session_name`, to be signed with `credentials` and sent to the
/// identity service of `region`.
#[derive(Debug)]
pub struct AssumeRoleCall {
    pub credentials: StaticCredentials,
    pub region: String,
    pub role_arn: String,
    pub role_session_name: String,
}

pub struct AssumeRoleCallView {
    pub credentials: StaticCredentialsView,
    pub region: Seq<char>,
    pub role_arn: Seq<char>,
    pub role_session_name: Seq<char>,
}

impl View for AssumeRoleCall {
    type V = AssumeRoleCallView;

    open spec fn view(&self) -> AssumeRoleCallView {
        AssumeRoleCallView {
            credentials: self.credentials@,
            region: self.region@,
            role_arn: self.role_arn@,
            role_session_name: self.role_session_name@,
        }
    }
}

/// The instant that chrono's `DateTime::parse_from_rfc3339` reads out of
/// `text`, or `None` where it rejects `text`.
pub uninterp spec fn rfc3339_instant(text: Seq<char>) -> Option<Timestamp>;

/// Calls chrono's `DateTime::parse_from_rfc3339`. The contract gives its
/// outcome a name and says nothing of which texts it accepts: the instant of
/// an accepted text, read off with `timestamp` and `timestamp_subsec_nanos`,
/// is `rfc3339_instant` of the text, and a rejected text has none.
#[verifier::external_body]
fn parse_rfc3339(text: &str) -> (parsed: Result<Timestamp, ParseError>)
    ensures
        match parsed {
            Ok(instant) => rfc3339_instant(text@) == Some(instant),
            Err(_) => rfc3339_instant(text@) is None,
        },
{
    match DateTime::parse_from_rfc3339(text) {
        Ok(instant) => Ok(
            Timestamp { seconds: instant.timestamp(), nanos: instant.timestamp_subsec_nanos() },
        ),
        Err(err) => Err(err),
    }
}

/// The request that assumes the role `arn` with the cached session token.
pub open spec fn assume_role_call(
    config: ConfigView,
    token: CredentialsView,
    expires_at: Timestamp,
    arn: Seq<char>,
) -> AssumeRoleCallView {
    AssumeRoleCallView {
        credentials: StaticCredentialsView {
            access_key_id: token.access_key_id,
            secret_access_key: token.secret_access_key,
            session_token: token.session_token,
            expires_at,
        },
        region: config.region_or_default(),
        role_arn: arn,
        role_session_name: config.session_name,
    }
}

/// Whether `c` is white space to std's `str::trim_end`: whether Unicode
/// lists it under White_Space.
pub uninterp spec fn white_space(c: char) -> bool;

/// `text` without the white space at its end.
pub open spec fn trimmed(text: Seq<char>) -> Seq<char>
    decreases text.len(),
{
    if text.len() > 0 && white_space(text.last()) {
        trimmed(text.drop_last())
    } else {
        text
    }
}

/// Calls std's `str::trim_end`, which returns the slice that is left when
/// the trailing white space is taken off: a prefix of `text` that does not
/// end in white space, followed in `text` by white space only.
#[verifier::external_body]
fn trim_end<'a>(text: &'a str) -> (kept: &'a str)
    ensures
        kept@.len() <= text@.len(),
        kept@ == text@.subrange(0, kept@.len() as int),
        kept@.len() > 0 ==> !white_space(kept@.last()),
        forall|i: int| kept@.len() <= i < text@.len() ==> white_space(#[trigger] text@[i]),
{
    text.trim_end()
}

/// A prefix that does not end in white space and is followed by white space
/// only is the text without the white space at its end.
proof fn lemma_trimmed(text: Seq<char>, kept: Seq<char>)
    requires
        kept.len() <= text.len(),
        kept == text.subrange(0, kept.len() as int),
        kept.len() > 0 ==> !white_space(kept.last()),
        forall|i: int| kept.len() <= i < text.len() ==> white_space(#[trigger] text[i]),
    ensures
        trimmed(text) == kept,
    decreases text.len(),
{
    if kept.len() == text.len() {
        assert(kept =~= text);
    } else {
        let shorter = text.drop_last();
        assert(white_space(text[text.len() - 1]));
        assert(kept =~= shorter.subrange(0, kept.len() as int));
        assert forall|i: int| kept.len() <= i < shorter.len() implies white_space(
            #[trigger] shorter[i],
        ) by {
            assert(white_space(text[i]));
        }
        lemma_trimmed(shorter, kept);
    }
}

/// The request for a session token for the MFA device of `config`, with the
/// one-time code `code`.
pub open spec fn session_token_call(
    config: ConfigView,
    profile: Option<Seq<char>>,
    code: Seq<char>,
) -> SessionTokenCallView {
    SessionTokenCallView {
        source: match profile {
            Some(name) => CredentialSourceView::Profile(name),
            None => CredentialSourceView::Chain { timeout_seconds: DISCOVERY_TIMEOUT_SECONDS },
        },
        region: config.region_or_default(),
        serial_number: config.mfa_serial_number,
        token_code: code,
    }
}

/// The exchanges with the identity service: what to ask of it, and what to
/// make of its answers.
pub struct AwsSts {}

impl AwsSts {
    /// The request for a session token. `line` is the line on which the
    /// one-time code was entered; the white space at its end, the line break
    /// with it, is no part of the code.
    pub fn login(config: &CliConfig, profile: Option<String>, line: &str) -> (call:
        SessionTokenCall)
        ensures
            call@ == session_token_call(config@, view_of(profile), trimmed(line@)),
    {
        let code = trim_end(line);
        proof {
            lemma_trimmed(line@, code@);
        }
        Self::login_with(config, profile, code)
    }

    /// The second half of `login`: the request for a session token with the
    /// one-time code `code`, taken as it is.
    pub fn login_with(config: &CliConfig, profile: Option<String>, code: &str) -> (call:
        SessionTokenCall)
        ensures
            call@ == session_token_call(config@, view_of(profile), code@),
    {
        let source = match profile {
            Some(name) => CredentialSource::Profile(name),
            None => CredentialSource::Chain { timeout_seconds: DISCOVERY_TIMEOUT_SECONDS },
        };
        SessionTokenCall {
            source,
            region: config.get_region(),
            serial_number: config.get_mfa(),
            token_code: code.to_string(),
        }
    }

    /// What the answer to a `SessionTokenCall` amounts to. The credentials it
    /// holds take the place of the cached session token; where it holds none,
    /// and where the exchange failed, the configuration stays as it was.
    pub fn complete_login(config: &mut CliConfig, reply: Result<Option<Credentials>, String>) -> (res:
        Result<(), CliError>)
        ensures
            match reply {
                Ok(Some(credentials)) => res is Ok && final(config)@ == old(
                    config,
                )@.with_session_token(credentials@),
                Ok(None) => res matches Err(CliError::NoCredentialsInResponse()) && final(config)@
                    == old(config)@,
                Err(message) => res matches Err(CliError::RusotoError(text)) && text == message
                    && final(config)@ == old(config)@,
            },
    {
        match reply {
            Ok(Some(credentials)) => {
                config.set_session_token(credentials);
                Ok(())
            },
            Ok(None) => Err(CliError::NoCredentialsInResponse()),
            Err(message) => Err(CliError::RusotoError(message)),
        }
    }

    /// The request for the credentials of the role that `name` stands for, or
    /// what stands in its way: no cached session token, a cached token whose
    /// expiration is no RFC 3339 timestamp, an alias that stands for nothing,
    /// in this order. The configuration is only read.
    pub fn fetch_sts(config: &CliConfig, name: &str) -> (res: Result<AssumeRoleCall, CliError>)
        ensures
            match config@.session_token {
                None => res matches Err(CliError::NoSessionToken()),
                Some(token) => match rfc3339_instant(token.expiration) {
                    None => res matches Err(CliError::DateTimeParseFailure(_)),
                    Some(expires_at) => match config@.role(name@) {
                        None => res matches Err(CliError::RoleNotFound(alias)) && alias@ == name@,
                        Some(arn) => res matches Ok(call) && call@ == assume_role_call(
                            config@,
                            token,
                            expires_at,
                            arn,
                        ),
                    },
                },
            },
    {
        match config.get_session_token() {
            None => Err(CliError::NoSessionToken()),
            Some(token) => {
                let expiry = parse_rfc3339(token.expiration.as_str());
                Self::assume_role_with(config, name, token, expiry)
            },
        }
    }

    /// The second half of `fetch_sts`: what it returns once the expiration of
    /// the cached session token `token` has been read, with `expiry` as the
    /// outcome.
    pub fn assume_role_with(
        config: &CliConfig,
        name: &str,
        token: Credentials,
        expiry: Result<Timestamp, ParseError>,
    ) -> (res: Result<AssumeRoleCall, CliError>)
        ensures
            match expiry {
                Err(err) => res matches Err(CliError::DateTimeParseFailure(e)) && e == err,
                Ok(expires_at) => match config@.role(name@) {
                    None => res matches Err(CliError::RoleNotFound(alias)) && alias@ == name@,
                    Some(arn) => res matches Ok(call) && call@ == assume_role_call(
                        config@,
                        token@,
                        expires_at,
                        arn,
                    ),
                },
            },
    {
        let expires_at = match expiry {
            Ok(instant) => instant,
            Err(err) => {
                return Err(CliError::from(err));
            },
        };
        let credentials = StaticCredentials {
            access_key_id: token.access_key_id,
            secret_access_key: token.secret_access_key,
            session_token: token.session_token,
            expires_at,
        };
        let region = config.get_region();
        match config.get_role_arn(name) {
            None => Err(CliError::RoleNotFound(name.to_string())),
            Some(arn) => Ok(
                AssumeRoleCall {
                    credentials,
                    region,
                    role_arn: arn.clone(),
                    role_session_name: config.get_session_name(),
                },
            ),
        }
    }

    /// What the answer to an `AssumeRoleCall` amounts to: the credentials it
    /// holds, unchanged; `NoCredentialsInResponse` where it holds none; the
    /// service's failure, with its message, where the exchange failed.
    pub fn complete_fetch(reply: Result<Option<Credentials>, String>) -> (res: Result<
        Credentials,
        CliError,
    >)
        ensures
            match reply {
                Ok(Some(credentials)) => res matches Ok(granted) && granted == credentials,
                Ok(None) => res matches Err(CliError::NoCredentialsInResponse()),
                Err(message) => res matches Err(CliError::RusotoError(text)) && text == message,
            },
    {
        match reply {
            Ok(Some(credentials)) => Ok(credentials),
            Ok(None) => Err(CliError::NoCredentialsInResponse()),
            Err(message) => Err(CliError::RusotoError(message)),
        }
    }
}

} // verus!
