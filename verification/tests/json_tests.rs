use synology_mcp::json::{str_eq, Json, Number};

fn s(t: &str) -> Json {
    Json::String(t.to_string())
}

fn obj(members: Vec<(&str, Json)>) -> Json {
    Json::Object(members.into_iter().map(|(k, v)| (k.to_string(), v)).collect())
}

#[test]
fn get_finds_a_member_and_misses_others() {
    let v = obj(vec![("a", s("x")), ("b", Json::Bool(true))]);
    assert_eq!(v.get("a").and_then(|j| j.as_str()), Some("x"));
    assert_eq!(v.get("b").and_then(|j| j.as_bool()), Some(true));
    assert!(v.get("c").is_none());
    assert!(s("text").get("a").is_none());
    assert!(Json::Array(vec![s("a")]).get("a").is_none());
}

#[test]
fn get_takes_the_first_member_of_a_name() {
    let v = obj(vec![("k", s("first")), ("k", s("second"))]);
    assert_eq!(v.get("k").and_then(|j| j.as_str()), Some("first"));
}

#[test]
fn number_readings() {
    let pos = Json::Number(Number::PosInt(5));
    let big = Json::Number(Number::PosInt(u64::MAX));
    let neg = Json::Number(Number::NegInt(-3));
    let float = Json::Number(Number::Float);
    assert_eq!(pos.as_u64(), Some(5));
    assert_eq!(pos.as_i64(), Some(5));
    assert_eq!(big.as_u64(), Some(u64::MAX));
    assert_eq!(big.as_i64(), None);
    assert_eq!(Json::Number(Number::PosInt(i64::MAX as u64)).as_i64(), Some(i64::MAX));
    assert_eq!(neg.as_u64(), None);
    assert_eq!(neg.as_i64(), Some(-3));
    assert_eq!(float.as_u64(), None);
    assert_eq!(float.as_i64(), None);
    assert_eq!(s("5").as_u64(), None);
}

#[test]
fn other_readings() {
    assert_eq!(Json::Null.as_bool(), None);
    assert_eq!(s("true").as_bool(), None);
    assert!(Json::Array(vec![]).as_array().is_some());
    assert!(obj(vec![]).as_array().is_none());
    assert_eq!(Json::Null.as_str(), None);
}

#[test]
fn string_equality() {
    assert!(str_eq("abc", "abc"));
    assert!(!str_eq("abc", "abd"));
    assert!(!str_eq("abc", "ab"));
    assert!(str_eq("", ""));
    assert!(str_eq("héllo", "héllo"));
}
