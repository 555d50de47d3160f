//! Settings of the service, from the values of its environment variables.

use vstd::prelude::*;

use crate::json::str_eq;
use crate::text::{decimal, parse_u16, push_decimal, spec_parse_u16};

verus! {

/// A setting that is missing or malformed.
#[derive(Debug, Clone, PartialEq, Eq)]
pub enum ConfigError {
    MissingHost,
    BadSynologyPort,
    MissingUser,
    MissingPassword,
    MissingAuthToken,
    BadMcpPort,
}

/// The text of a settings error, as the service reports it.
pub open spec fn config_error_text(e: ConfigError) -> Seq<char> {
    match e {
        ConfigError::MissingHost => "SYNOLOGY_HOST required"@,
        ConfigError::BadSynologyPort => "SYNOLOGY_PORT must be a number"@,
        ConfigError::MissingUser => "SYNOLOGY_USER required"@,
        ConfigError::MissingPassword => "SYNOLOGY_PASSWORD required"@,
        ConfigError::MissingAuthToken => "MCP_AUTH_TOKEN required"@,
        ConfigError::BadMcpPort => "MCP_PORT must be a number"@,
    }
}

impl ConfigError {
    /// The text of this error.
    pub fn message(&self) -> (r: String)
        ensures
            r@ == config_error_text(*self),
    {
        match self {
            ConfigError::MissingHost => String::from_str("SYNOLOGY_HOST required"),
            ConfigError::BadSynologyPort => String::from_str("SYNOLOGY_PORT must be a number"),
            ConfigError::MissingUser => String::from_str("SYNOLOGY_USER required"),
            ConfigError::MissingPassword => String::from_str("SYNOLOGY_PASSWORD required"),
            ConfigError::MissingAuthToken => String::from_str("MCP_AUTH_TOKEN required"),
            ConfigError::BadMcpPort => String::from_str("MCP_PORT must be a number"),
        }
    }
}

/// Where and as whom to reach the DSM web service.
#[derive(Debug, Clone, PartialEq, Eq)]
pub struct DsmSettings {
    pub host: String,
    pub port: u16,
    pub https: bool,
    pub user: String,
    pub password: String,
}

/// The Unicode lowercase of a text, as `str::to_lowercase` gives it.
pub uninterp spec fn lowercase(s: Seq<char>) -> Seq<char>;

/// Calls `str::to_lowercase`. The contract claims only that the result is a
/// function of the text alone, named `lowercase`; what Unicode lowercasing
/// does to each character is left unsaid.
#[verifier::external_body]
fn to_lowercase(s: &str) -> (r: String)
    ensures
        r@ == lowercase(s@),
{
    s.to_lowercase()
}

/// Whether an already lowercased `SYNOLOGY_HTTPS` value asks for HTTPS: any
/// value but `false` does.
pub fn https_enabled(lowered: &str) -> (r: bool)
    ensures
        r == (lowered@ != "false"@),
{
    !str_eq(lowered, "false")
}

/// A port setting: the default when it is unset, else its text as a `u16`.
pub open spec fn port_setting(text: Option<String>, default: u16) -> Option<u16> {
    match text {
        Some(t) => spec_parse_u16(t@),
        None => Some(default),
    }
}

fn read_port(text: &Option<String>, default: u16) -> (r: Option<u16>)
    ensures
        r == port_setting(*text, default),
{
    match text {
        Some(t) => parse_u16(t.as_str()),
        None => Some(default),
    }
}

/// The first problem with the DSM settings, where there is one: the host, the
/// port, the user and the password are checked in that order.
pub open spec fn dsm_settings_problem(
    host: Option<String>,
    port: Option<String>,
    user: Option<String>,
    password: Option<String>,
) -> Option<ConfigError> {
    if host is None {
        Some(ConfigError::MissingHost)
    } else if port_setting(port, 5001) is None {
        Some(ConfigError::BadSynologyPort)
    } else if user is None {
        Some(ConfigError::MissingUser)
    } else if password is None {
        Some(ConfigError::MissingPassword)
    } else {
        None
    }
}

/// The DSM settings from `SYNOLOGY_HOST`, `SYNOLOGY_PORT` (default 5001),
/// `SYNOLOGY_USER`, `SYNOLOGY_PASSWORD` and `SYNOLOGY_HTTPS` (HTTPS unless its
/// lowercase is `false`; on when unset), each `None` where it is unset.
pub fn dsm_settings(
    host: Option<String>,
    port: Option<String>,
    user: Option<String>,
    password: Option<String>,
    https: Option<String>,
) -> (r: Result<DsmSettings, ConfigError>)
    ensures
        match dsm_settings_problem(host, port, user, password) {
            Some(e) => r == Err::<DsmSettings, ConfigError>(e),
            None => match r {
                Ok(s) => {
                    &&& s.host@ == host->0@
                    &&& Some(s.port) == port_setting(port, 5001)
                    &&& s.user@ == user->0@
                    &&& s.password@ == password->0@
                    &&& s.https == match https {
                        Some(t) => lowercase(t@) != "false"@,
                        None => true,
                    }
                },
                Err(_) => false,
            },
        },
{
    let host = match host {
        Some(h) => h,
        None => {
            return Err(ConfigError::MissingHost);
        },
    };
    let port = match read_port(&port, 5001) {
        Some(p) => p,
        None => {
            return Err(ConfigError::BadSynologyPort);
        },
    };
    let user = match user {
        Some(u) => u,
        None => {
            return Err(ConfigError::MissingUser);
        },
    };
    let password = match password {
        Some(p) => p,
        None => {
            return Err(ConfigError::MissingPassword);
        },
    };
    let https = match https {
        Some(t) => {
            let lowered = to_lowercase(t.as_str());
            https_enabled(lowered.as_str())
        },
        None => true,
    };
    Ok(DsmSettings { host, port, https, user, password })
}

/// The address the service listens on: every interface, at `MCP_PORT`
/// (default 3000).
pub fn listen_address(port: Option<String>) -> (r: Result<String, ConfigError>)
    ensures
        match port_setting(port, 3000) {
            Some(p) => match r {
                Ok(a) => a@ == "0.0.0.0:"@ + decimal(p as nat),
                Err(_) => false,
            },
            None => r == Err::<String, ConfigError>(ConfigError::BadMcpPort),
        },
{
    match read_port(&port, 3000) {
        Some(p) => {
            let mut a = String::from_str("0.0.0.0:");
            push_decimal(&mut a, p as u64);
            Ok(a)
        },
        None => Err(ConfigError::BadMcpPort),
    }
}

/// The token that clients must present, from `MCP_AUTH_TOKEN`.
pub fn auth_token(token: Option<String>) -> (r: Result<String, ConfigError>)
    ensures
        match token {
            Some(t) => match r {
                Ok(s) => s@ == t@,
                Err(_) => false,
            },
            None => r == Err::<String, ConfigError>(ConfigError::MissingAuthToken),
        },
{
    match token {
        Some(t) => Ok(t),
        None => Err(ConfigError::MissingAuthToken),
    }
}

/// A port setting is its default where unset, and the port whose decimal text
/// it is where set.
pub proof fn lemma_port_setting(text: String, port: u16, default: u16)
    requires
        text@ == decimal(port as nat),
    ensures
        port_setting(None, default) == Some(default),
        port_setting(Some(text), default) == Some(port),
{
    crate::text::lemma_parse_decimal_u16(port);
}

}
