//! The DSM session protocol: where requests go, what they carry, and how a
//! reply is judged.

use vstd::prelude::*;

use crate::json::{holds_count, lemma_readings, Json};
use crate::text::{decimal, push_decimal};

verus! {

/// A failure that a DSM reply reports, or a reply that lacks what the caller
/// reads from it.
#[derive(Debug, Clone, PartialEq, Eq)]
pub enum DsmError {
    /// The login reply did not report success; `code` is its error code, or 0.
    LoginFailed { code: u64 },
    /// The login reply reported success but carried no session id.
    MissingSid,
    /// A call reply did not report success; `code` is its error code, or 0.
    Api { api: String, method: String, code: u64 },
    /// A reply's data lacks the named list.
    FieldMissing { field: String },
}

/// The text of an error, as the service reports it.
pub open spec fn error_text(e: DsmError) -> Seq<char> {
    match e {
        DsmError::LoginFailed { code } => "DSM login failed (error code "@ + decimal(code as nat)
            + ")"@,
        DsmError::MissingSid => "DSM login response missing sid"@,
        DsmError::Api { api, method, code } => "DSM API error: "@ + api@ + "."@ + method@
            + " code="@ + decimal(code as nat),
        DsmError::FieldMissing { field } => field@ + " field missing"@,
    }
}

impl DsmError {
    /// The text of this error.
    pub fn message(&self) -> (r: String)
        ensures
            r@ == error_text(*self),
    {
        match self {
            DsmError::LoginFailed { code } => {
                let mut s = String::from_str("DSM login failed (error code ");
                push_decimal(&mut s, *code);
                s.append(")");
                s
            },
            DsmError::MissingSid => String::from_str("DSM login response missing sid"),
            DsmError::Api { api, method, code } => {
                let mut s = String::from_str("DSM API error: ");
                s.append(api.as_str());
                s.append(".");
                s.append(method.as_str());
                s.append(" code=");
                push_decimal(&mut s, *code);
                s
            },
            DsmError::FieldMissing { field } => {
                let mut s = field.clone();
                s.append(" field missing");
                s
            },
        }
    }
}

/// The URL scheme.
pub open spec fn scheme(https: bool) -> Seq<char> {
    if https {
        "https"@
    } else {
        "http"@
    }
}

/// The root of the DSM web service: `{scheme}://{host}:{port}`.
pub open spec fn spec_base_url(host: Seq<char>, port: u16, https: bool) -> Seq<char> {
    scheme(https) + "://"@ + host + ":"@ + decimal(port as nat)
}

/// The root of the DSM web service on `host` and `port`.
pub fn base_url(host: &str, port: u16, https: bool) -> (r: String)
    ensures
        r@ == spec_base_url(host@, port, https),
{
    let mut s = if https {
        String::from_str("https")
    } else {
        String::from_str("http")
    };
    s.append("://");
    s.append(host);
    s.append(":");
    push_decimal(&mut s, port as u64);
    s
}

/// The endpoint that every DSM request is posted to.
pub fn entry_url(base_url: &str) -> (r: String)
    ensures
        r@ == base_url@ + "/webapi/entry.cgi"@,
{
    let mut s = String::from_str(base_url);
    s.append("/webapi/entry.cgi");
    s
}

/// The fields of a form, as text.
pub open spec fn form_view(form: Seq<(String, String)>) -> Seq<(Seq<char>, Seq<char>)> {
    form.map_values(|p: (String, String)| (p.0@, p.1@))
}

fn field(name: &str, value: &str) -> (r: (String, String))
    ensures
        r.0@ == name@,
        r.1@ == value@,
{
    (String::from_str(name), String::from_str(value))
}

/// The form that opens a session for `user`.
pub fn login_form(user: &str, password: &str) -> (r: Vec<(String, String)>)
    ensures
        form_view(r@) == seq![
            ("api"@, "SYNO.API.Auth"@),
            ("version"@, "7"@),
            ("method"@, "login"@),
            ("account"@, user@),
            ("passwd"@, password@),
            ("session"@, "SynologyMCP"@),
            ("format"@, "sid"@),
        ],
{
    let mut r = Vec::new();
    r.push(field("api", "SYNO.API.Auth"));
    r.push(field("version", "7"));
    r.push(field("method", "login"));
    r.push(field("account", user));
    r.push(field("passwd", password));
    r.push(field("session", "SynologyMCP"));
    r.push(field("format", "sid"));
    assert(form_view(r@) =~= seq![
        ("api"@, "SYNO.API.Auth"@),
        ("version"@, "7"@),
        ("method"@, "login"@),
        ("account"@, user@),
        ("passwd"@, password@),
        ("session"@, "SynologyMCP"@),
        ("format"@, "sid"@),
    ]);
    r
}

/// The form that closes the session `sid`.
pub fn logout_form(sid: &str) -> (r: Vec<(String, String)>)
    ensures
        form_view(r@) == seq![
            ("api"@, "SYNO.API.Auth"@),
            ("version"@, "7"@),
            ("method"@, "logout"@),
            ("session"@, "SynologyMCP"@),
            ("_sid"@, sid@),
        ],
{
    let mut r = Vec::new();
    r.push(field("api", "SYNO.API.Auth"));
    r.push(field("version", "7"));
    r.push(field("method", "logout"));
    r.push(field("session", "SynologyMCP"));
    r.push(field("_sid", sid));
    assert(form_view(r@) =~= seq![
        ("api"@, "SYNO.API.Auth"@),
        ("version"@, "7"@),
        ("method"@, "logout"@),
        ("session"@, "SynologyMCP"@),
        ("_sid"@, sid@),
    ]);
    r
}

/// The extra fields of a call, as text.
pub open spec fn extra_view(extra: Seq<(&str, &str)>) -> Seq<(Seq<char>, Seq<char>)> {
    extra.map_values(|p: (&str, &str)| (p.0@, p.1@))
}

/// The form of a call of `api.method` at `version` in session `sid`: the four
/// fixed fields, then `extra` in order.
pub fn call_form(api: &str, version: u32, method: &str, sid: &str, extra: &[(&str, &str)]) -> (r: Vec<
    (String, String),
>)
    ensures
        form_view(r@) == seq![
            ("api"@, api@),
            ("version"@, decimal(version as nat)),
            ("method"@, method@),
            ("_sid"@, sid@),
        ] + extra_view(extra@),
{
    let mut r = Vec::new();
    r.push(field("api", api));
    let v = crate::text::to_decimal(version as u64);
    r.push((String::from_str("version"), v));
    r.push(field("method", method));
    r.push(field("_sid", sid));
    let ghost head = seq![
        ("api"@, api@),
        ("version"@, decimal(version as nat)),
        ("method"@, method@),
        ("_sid"@, sid@),
    ];
    assert(form_view(r@) =~= head);
    let mut i: usize = 0;
    while i < extra.len()
        invariant
            0 <= i <= extra@.len(),
            form_view(r@) =~= head + extra_view(extra@.take(i as int)),
        decreases extra@.len() - i,
    {
        let (k, v) = extra[i];
        let ghost before = r@;
        r.push(field(k, v));
        assert(extra@.take(i + 1) =~= extra@.take(i as int).push(extra@[i as int]));
        assert(extra_view(extra@.take(i + 1)) =~= extra_view(extra@.take(i as int)).push(
            (k@, v@),
        ));
        assert(form_view(r@) =~= form_view(before).push((k@, v@)));
        i = i + 1;
    }
    assert(extra@.take(i as int) =~= extra@);
    r
}

/// Whether a reply reports success: its `success` member is `true`.
pub open spec fn succeeded(body: Json) -> bool {
    body.at("success"@).bool_of() == Some(true)
}

/// The error code of a reply: its `error.code` member, or 0.
pub open spec fn error_code(body: Json) -> u64 {
    body.at("error"@).at("code"@).u64_or_zero()
}

fn reply_succeeded(body: &Json) -> (r: bool)
    ensures
        r == succeeded(*body),
{
    match body.get("success") {
        Some(v) => match v.as_bool() {
            Some(b) => b,
            None => false,
        },
        None => false,
    }
}

fn reply_error_code(body: &Json) -> (r: u64)
    ensures
        r == error_code(*body),
{
    match body.get("error") {
        Some(e) => match e.get("code") {
            Some(c) => match c.as_u64() {
                Some(n) => n,
                None => 0,
            },
            None => 0,
        },
        None => 0,
    }
}

/// What `login_outcome` gives for the reply `body`.
pub open spec fn login_outcome_of(r: Result<String, DsmError>, body: Json) -> bool {
    match r {
        Ok(sid) => succeeded(body) && body.at("data"@).at("sid"@).str_of() == Some(sid@),
        Err(DsmError::LoginFailed { code }) => !succeeded(body) && code == error_code(body),
        Err(DsmError::MissingSid) => succeeded(body) && body.at("data"@).at("sid"@).str_of() is None,
        Err(_) => false,
    }
}

/// What `call_outcome` gives for the reply `body` to `api.method`.
pub open spec fn call_outcome_of(
    r: Result<Json, DsmError>,
    api: Seq<char>,
    method: Seq<char>,
    body: Json,
) -> bool {
    match r {
        Ok(data) => succeeded(body) && data == body.at("data"@),
        Err(DsmError::Api { api: a, method: m, code }) => !succeeded(body) && a@ == api && m@
            == method && code == error_code(body),
        Err(_) => false,
    }
}

/// A login reply whose `success` is `true` and whose `data.sid` is a text
/// opens the session with that text; one whose `success` is anything else
/// fails with its `error.code` (0 where that is not a non-negative integer);
/// one that reports success without a text sid lacks the sid.
pub proof fn lemma_login_outcome(r: Result<String, DsmError>, body: Json)
    requires
        login_outcome_of(r, body),
    ensures
        body.at("success"@) == Json::Bool(true) ==> match body.at("data"@).at("sid"@) {
            Json::String(t) => r matches Ok(sid) && sid@ == t@,
            _ => r matches Err(DsmError::MissingSid),
        },
        body.at("success"@) != Json::Bool(true) ==> (r matches Err(DsmError::LoginFailed { code })
            && holds_count(code as int, body.at("error"@).at("code"@))),
{
    lemma_readings(body.at("error"@).at("code"@), seq![]);
}

/// A call reply whose `success` is `true` gives back its `data` member
/// (`null` where it has none); one whose `success` is anything else fails,
/// naming the API and method, with its `error.code` (0 where that is not a
/// non-negative integer).
pub proof fn lemma_call_outcome(r: Result<Json, DsmError>, api: Seq<char>, method: Seq<char>, body: Json)
    requires
        call_outcome_of(r, api, method, body),
    ensures
        body.at("success"@) == Json::Bool(true) ==> (r matches Ok(data) && data == body.at(
            "data"@,
        )),
        body.at("success"@) != Json::Bool(true) ==> (r matches Err(
            DsmError::Api { api: a, method: m, code },
        ) && a@ == api && m@ == method && holds_count(code as int, body.at("error"@).at("code"@))),
{
    lemma_readings(body.at("error"@).at("code"@), seq![]);
}

/// The port in the root URL reads back as the port: the URL is the scheme,
/// `://`, the host, `:`, and a text that parses as the port.
pub proof fn lemma_base_url_port(host: Seq<char>, port: u16, https: bool)
    ensures
        ({
            let u = spec_base_url(host, port, https);
            let head = (if https { "https"@ } else { "http"@ }) + "://"@ + host + ":"@;
            &&& u.take(head.len() as int) == head
            &&& crate::text::spec_parse_u16(u.skip(head.len() as int)) == Some(port)
        }),
{
    let head = (if https { "https"@ } else { "http"@ }) + "://"@ + host + ":"@;
    let u = spec_base_url(host, port, https);
    assert(u == head + decimal(port as nat));
    assert(u.take(head.len() as int) =~= head);
    assert(u.skip(head.len() as int) =~= decimal(port as nat));
    crate::text::lemma_parse_decimal_u16(port);
}

/// Judges a login reply: the session id when the reply reports success and
/// carries `data.sid` as text; otherwise the failure, with the reply's error
/// code.
pub fn login_outcome(body: &Json) -> (r: Result<String, DsmError>)
    ensures
        match r {
            Ok(sid) => succeeded(*body) && body.at("data"@).at("sid"@).str_of() == Some(sid@),
            Err(DsmError::LoginFailed { code }) => !succeeded(*body) && code == error_code(*body),
            Err(DsmError::MissingSid) => succeeded(*body) && body.at("data"@).at(
                "sid"@,
            ).str_of() is None,
            Err(_) => false,
        },
        login_outcome_of(r, *body),
{
    if !reply_succeeded(body) {
        return Err(DsmError::LoginFailed { code: reply_error_code(body) });
    }
    match body.get("data") {
        Some(data) => match data.get("sid") {
            Some(sid) => match sid.as_str() {
                Some(s) => Ok(String::from_str(s)),
                None => Err(DsmError::MissingSid),
            },
            None => Err(DsmError::MissingSid),
        },
        None => Err(DsmError::MissingSid),
    }
}

/// Takes the member `key` out of a value: `value[key]`, by move.
fn take_member(body: Json, key: &str) -> (r: Json)
    ensures
        r == body.at(key@),
{
    let ghost want = body.at(key@);
    match body {
        Json::Object(mut members) => {
            let ghost all = members@;
            let mut i: usize = 0;
            assert(members@.skip(0) =~= members@);
            while i < members.len()
                invariant
                    0 <= i <= members@.len(),
                    members@ == all,
                    want == crate::json::lookup(all.skip(i as int), key@),
                    want == body.at(key@),
                decreases members@.len() - i,
            {
                assert(all.skip(i as int).drop_first() =~= all.skip(i + 1));
                assert(all.skip(i as int)[0] == all[i as int]);
                if crate::json::str_eq(members[i].0.as_str(), key) {
                    let m = members.swap_remove(i);
                    return m.1;
                }
                i = i + 1;
            }
            assert(all.skip(i as int) =~= Seq::<(String, Json)>::empty());
            Json::Null
        },
        _ => Json::Null,
    }
}

/// Judges the reply to a call of `api.method`: its `data` member when the
/// reply reports success; otherwise the failure, with the reply's error code.
pub fn call_outcome(api: &str, method: &str, body: Json) -> (r: Result<Json, DsmError>)
    ensures
        match r {
            Ok(data) => succeeded(body) && data == body.at("data"@),
            Err(DsmError::Api { api: a, method: m, code }) => !succeeded(body) && a@ == api@ && m@
                == method@ && code == error_code(body),
            Err(_) => false,
        },
        call_outcome_of(r, api@, method@, body),
{
    if !reply_succeeded(&body) {
        return Err(
            DsmError::Api {
                api: String::from_str(api),
                method: String::from_str(method),
                code: reply_error_code(&body),
            },
        );
    }
    Ok(take_member(body, "data"))
}

}
