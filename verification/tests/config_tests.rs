use synology_mcp::auth::authorized;
use synology_mcp::config::{auth_token, dsm_settings, https_enabled, listen_address, ConfigError};

fn some(t: &str) -> Option<String> {
    Some(t.to_string())
}

#[test]
fn settings_with_defaults() {
    let st = dsm_settings(some("nas"), None, some("admin"), some("pw"), None).unwrap();
    assert_eq!(st.host, "nas");
    assert_eq!(st.port, 5001);
    assert!(st.https);
    assert_eq!(st.user, "admin");
    assert_eq!(st.password, "pw");
}

#[test]
fn settings_with_values() {
    let st = dsm_settings(some("nas"), some("5000"), some("u"), some("p"), some("yes")).unwrap();
    assert_eq!(st.port, 5000);
    assert!(st.https);
}

#[test]
fn https_off_whatever_the_case() {
    for v in ["false", "FALSE", "False", "fAlSe"] {
        let st = dsm_settings(some("nas"), None, some("u"), some("p"), some(v)).unwrap();
        assert!(!st.https, "value {:?}", v);
    }
    for v in ["true", "0", "no", "false ", ""] {
        let st = dsm_settings(some("nas"), None, some("u"), some("p"), some(v)).unwrap();
        assert!(st.https, "value {:?}", v);
    }
}

#[test]
fn https_enabled_on_lowered_text() {
    assert!(!https_enabled("false"));
    assert!(https_enabled("FALSE"));
    assert!(https_enabled("true"));
}

#[test]
fn settings_errors_in_order() {
    assert_eq!(dsm_settings(None, some("x"), None, None, None), Err(ConfigError::MissingHost));
    assert_eq!(dsm_settings(some("h"), some("x"), None, None, None), Err(ConfigError::BadSynologyPort));
    assert_eq!(dsm_settings(some("h"), some("70000"), some("u"), some("p"), None), Err(ConfigError::BadSynologyPort));
    assert_eq!(dsm_settings(some("h"), None, None, None, None), Err(ConfigError::MissingUser));
    assert_eq!(dsm_settings(some("h"), None, some("u"), None, None), Err(ConfigError::MissingPassword));
}

#[test]
fn settings_error_texts() {
    assert_eq!(ConfigError::MissingHost.message(), "SYNOLOGY_HOST required");
    assert_eq!(ConfigError::BadSynologyPort.message(), "SYNOLOGY_PORT must be a number");
    assert_eq!(ConfigError::MissingUser.message(), "SYNOLOGY_USER required");
    assert_eq!(ConfigError::MissingPassword.message(), "SYNOLOGY_PASSWORD required");
    assert_eq!(ConfigError::MissingAuthToken.message(), "MCP_AUTH_TOKEN required");
    assert_eq!(ConfigError::BadMcpPort.message(), "MCP_PORT must be a number");
}

#[test]
fn listen_address_default_and_given() {
    assert_eq!(listen_address(None), Ok("0.0.0.0:3000".to_string()));
    assert_eq!(listen_address(some("8080")), Ok("0.0.0.0:8080".to_string()));
    assert_eq!(listen_address(some("+8080")), Ok("0.0.0.0:8080".to_string()));
    assert_eq!(listen_address(some("http")), Err(ConfigError::BadMcpPort));
    assert_eq!(listen_address(some("65536")), Err(ConfigError::BadMcpPort));
}

#[test]
fn auth_token_required() {
    assert_eq!(auth_token(some("tok")), Ok("tok".to_string()));
    assert_eq!(auth_token(None), Err(ConfigError::MissingAuthToken));
}

#[test]
fn bearer_authorization() {
    assert!(authorized(Some("Bearer tok"), "tok"));
    assert!(!authorized(Some("Bearer other"), "tok"));
    assert!(!authorized(Some("tok"), "tok"));
    assert!(!authorized(None, "tok"));
}
