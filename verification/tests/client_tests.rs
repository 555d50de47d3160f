use synology_mcp::dsm::client::{
    base_url, call_form, call_outcome, entry_url, login_form, login_outcome, logout_form, DsmError,
};
use synology_mcp::json::{Json, Number};

fn s(t: &str) -> Json {
    Json::String(t.to_string())
}

fn obj(members: Vec<(&str, Json)>) -> Json {
    Json::Object(members.into_iter().map(|(k, v)| (k.to_string(), v)).collect())
}

fn n(v: u64) -> Json {
    Json::Number(Number::PosInt(v))
}

fn pairs(form: &[(String, String)]) -> Vec<(&str, &str)> {
    form.iter().map(|(k, v)| (k.as_str(), v.as_str())).collect()
}

#[test]
fn base_url_writes_scheme_host_and_port() {
    assert_eq!(base_url("nas.local", 5001, true), "https://nas.local:5001");
    assert_eq!(base_url("192.168.1.10", 5000, false), "http://192.168.1.10:5000");
}

#[test]
fn entry_url_appends_the_endpoint() {
    assert_eq!(entry_url("https://nas.local:5001"), "https://nas.local:5001/webapi/entry.cgi");
}

#[test]
fn login_form_fields() {
    let f = login_form("admin", "secret");
    assert_eq!(
        pairs(&f),
        vec![
            ("api", "SYNO.API.Auth"),
            ("version", "7"),
            ("method", "login"),
            ("account", "admin"),
            ("passwd", "secret"),
            ("session", "SynologyMCP"),
            ("format", "sid"),
        ]
    );
}

#[test]
fn logout_form_fields() {
    let f = logout_form("abc");
    assert_eq!(
        pairs(&f),
        vec![
            ("api", "SYNO.API.Auth"),
            ("version", "7"),
            ("method", "logout"),
            ("session", "SynologyMCP"),
            ("_sid", "abc"),
        ]
    );
}

#[test]
fn call_form_fields_then_extras() {
    let f = call_form("SYNO.Core.Package", 1, "list", "sid1", &[("additional", "description")]);
    assert_eq!(
        pairs(&f),
        vec![
            ("api", "SYNO.Core.Package"),
            ("version", "1"),
            ("method", "list"),
            ("_sid", "sid1"),
            ("additional", "description"),
        ]
    );
    let g = call_form("SYNO.Core.System", 12, "info", "x", &[]);
    assert_eq!(g.len(), 4);
    assert_eq!(g[1].1, "12");
}

#[test]
fn login_success_gives_the_sid() {
    let body = obj(vec![("success", Json::Bool(true)), ("data", obj(vec![("sid", s("S1D"))]))]);
    assert_eq!(login_outcome(&body), Ok("S1D".to_string()));
}

#[test]
fn login_failure_gives_the_code() {
    let body = obj(vec![("success", Json::Bool(false)), ("error", obj(vec![("code", n(400))]))]);
    assert_eq!(login_outcome(&body), Err(DsmError::LoginFailed { code: 400 }));
    let bare = obj(vec![]);
    assert_eq!(login_outcome(&bare), Err(DsmError::LoginFailed { code: 0 }));
    let text_true = obj(vec![("success", s("true"))]);
    assert_eq!(login_outcome(&text_true), Err(DsmError::LoginFailed { code: 0 }));
}

#[test]
fn login_without_sid() {
    let body = obj(vec![("success", Json::Bool(true)), ("data", obj(vec![("sid", n(5))]))]);
    assert_eq!(login_outcome(&body), Err(DsmError::MissingSid));
}

#[test]
fn call_success_gives_the_data() {
    let body = obj(vec![("success", Json::Bool(true)), ("data", obj(vec![("model", s("DS920+"))]))]);
    match call_outcome("SYNO.Core.System", "info", body) {
        Ok(data) => assert_eq!(data, obj(vec![("model", s("DS920+"))])),
        Err(e) => panic!("unexpected {:?}", e),
    }
    let no_data = obj(vec![("success", Json::Bool(true))]);
    assert_eq!(call_outcome("A", "b", no_data), Ok(Json::Null));
}

#[test]
fn call_failure_gives_api_method_and_code() {
    let body = obj(vec![("success", Json::Bool(false)), ("error", obj(vec![("code", n(105))]))]);
    let e = call_outcome("SYNO.Core.System", "info", body).unwrap_err();
    assert_eq!(
        e,
        DsmError::Api { api: "SYNO.Core.System".to_string(), method: "info".to_string(), code: 105 }
    );
    assert_eq!(e.message(), "DSM API error: SYNO.Core.System.info code=105");
}

#[test]
fn error_messages() {
    assert_eq!(DsmError::LoginFailed { code: 400 }.message(), "DSM login failed (error code 400)");
    assert_eq!(DsmError::MissingSid.message(), "DSM login response missing sid");
    assert_eq!(
        DsmError::FieldMissing { field: "volumes".to_string() }.message(),
        "volumes field missing"
    );
}
