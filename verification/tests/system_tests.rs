use synology_mcp::dsm::client::DsmError;
use synology_mcp::dsm::system::{
    get_system_info, get_system_utilisation, list_packages, parse_uptime, system_info_in_range,
    uptime_in_range, utilisation_in_range,
};
use synology_mcp::json::{Json, Number};
use synology_mcp::text::to_decimal;

fn s(t: &str) -> Json {
    Json::String(t.to_string())
}

fn obj(members: Vec<(&str, Json)>) -> Json {
    Json::Object(members.into_iter().map(|(k, v)| (k.to_string(), v)).collect())
}

fn n(v: u64) -> Json {
    Json::Number(Number::PosInt(v))
}

#[test]
fn uptime_hours_minutes_seconds() {
    assert_eq!(parse_uptime("2038:0:5"), Some(2038 * 3600 + 5));
    assert_eq!(parse_uptime("0:1:1"), Some(61));
    assert_eq!(parse_uptime("1:2"), None);
    assert_eq!(parse_uptime("1:2:3:4"), None);
    assert_eq!(parse_uptime("x:1:2:3"), Some(3723));
}

#[test]
fn uptime_of_clock_text_reads_back() {
    for (h, m, sec) in [(0u64, 0u64, 0u64), (2038, 0, 5), (1, 59, 59), (100000, 7, 30)] {
        let text = format!("{}:{}:{}", to_decimal(h), to_decimal(m), to_decimal(sec));
        assert_eq!(parse_uptime(&text), Some(h * 3600 + m * 60 + sec));
    }
}

#[test]
fn uptime_range_check() {
    assert!(uptime_in_range("2038:0:5"));
    assert!(uptime_in_range("nonsense"));
    assert!(!uptime_in_range("18446744073709551615:0:0"));
    assert!(uptime_in_range("5124095576030431:0:15"));
    assert!(!uptime_in_range("5124095576030431:0:16"));
}

#[test]
fn system_info_from_a_full_reply() {
    let data = obj(vec![
        ("model", s("DS920+")),
        ("serial", s("ABC123")),
        ("firmware_ver", s("DSM 7.2")),
        ("up_time", s("2038:0:5")),
        ("hostname", s("nas")),
        ("sys_temp", n(41)),
        ("ram_size", n(4096)),
    ]);
    assert!(system_info_in_range(&data));
    let info = get_system_info(&data);
    assert_eq!(info.model, "DS920+");
    assert_eq!(info.serial, "ABC123");
    assert_eq!(info.dsm_version, "DSM 7.2");
    assert_eq!(info.uptime_secs, 7336805);
    assert_eq!(info.hostname, "nas");
    assert_eq!(info.temperature_c, Some(41));
    assert_eq!(info.ram_mb, 4096);
}

#[test]
fn system_info_defaults() {
    let data = obj(vec![("ram_size", s("8192")), ("sys_temp", Json::Number(Number::NegInt(-2)))]);
    let info = get_system_info(&data);
    assert_eq!(info.model, "unknown");
    assert_eq!(info.serial, "unknown");
    assert_eq!(info.dsm_version, "unknown");
    assert_eq!(info.uptime_secs, 0);
    assert_eq!(info.hostname, "DiskStation");
    assert_eq!(info.temperature_c, Some(-2));
    assert_eq!(info.ram_mb, 8192);
    let empty = get_system_info(&Json::Null);
    assert_eq!(empty.ram_mb, 0);
    assert_eq!(empty.temperature_c, None);
    let bad_ram = get_system_info(&obj(vec![("ram_size", s("lots"))]));
    assert_eq!(bad_ram.ram_mb, 0);
}

#[test]
fn system_info_range_refuses_an_overflowing_uptime() {
    let data = obj(vec![("up_time", s("18446744073709551615:0:0"))]);
    assert!(!system_info_in_range(&data));
}

fn utilisation_reply() -> Json {
    obj(vec![
        ("cpu", obj(vec![("user_load", n(12)), ("system_load", n(5))])),
        (
            "memory",
            obj(vec![("total_real", n(4194304)), ("avail_real", n(1048576)), ("real_usage", n(75))]),
        ),
        (
            "network",
            Json::Array(vec![
                obj(vec![("device", s("total")), ("rx", n(2048)), ("tx", n(1024))]),
                obj(vec![("device", s("eth0")), ("rx", n(3072)), ("tx", s("x"))]),
            ]),
        ),
    ])
}

#[test]
fn utilisation_sums_and_divides() {
    let data = utilisation_reply();
    assert!(utilisation_in_range(&data));
    let u = get_system_utilisation(&data);
    assert_eq!(u.cpu_percent, 17);
    assert_eq!(u.memory_total_mb, 4096);
    assert_eq!(u.memory_used_mb, 3072);
    assert_eq!(u.memory_percent, 75);
    assert_eq!(u.network_rx_kbps, 5);
    assert_eq!(u.network_tx_kbps, 1);
}

#[test]
fn utilisation_used_memory_saturates_at_zero() {
    let data = obj(vec![("memory", obj(vec![("total_real", n(1024)), ("avail_real", n(4096))]))]);
    let u = get_system_utilisation(&data);
    assert_eq!(u.memory_total_mb, 1);
    assert_eq!(u.memory_used_mb, 0);
    assert_eq!(u.cpu_percent, 0);
    assert_eq!(u.network_rx_kbps, 0);
}

#[test]
fn utilisation_range_check() {
    let cpu = obj(vec![("cpu", obj(vec![("user_load", n(u64::MAX)), ("system_load", n(1))]))]);
    assert!(!utilisation_in_range(&cpu));
    let net = obj(vec![(
        "network",
        Json::Array(vec![obj(vec![("tx", n(u64::MAX))]), obj(vec![("tx", n(1))])]),
    )]);
    assert!(!utilisation_in_range(&net));
    assert!(utilisation_in_range(&Json::Null));
}

#[test]
fn packages_in_order() {
    let data = obj(vec![(
        "packages",
        Json::Array(vec![
            obj(vec![
                ("id", s("Docker")),
                ("name", s("Container Manager")),
                ("version", s("20.10")),
                ("status", s("running")),
            ]),
            obj(vec![("id", s("Plex"))]),
        ]),
    )]);
    let ps = list_packages(&data).unwrap();
    assert_eq!(ps.len(), 2);
    assert_eq!(ps[0].id, "Docker");
    assert_eq!(ps[0].name, "Container Manager");
    assert_eq!(ps[0].version, "20.10");
    assert_eq!(ps[0].status, "running");
    assert_eq!(ps[1].id, "Plex");
    assert_eq!(ps[1].name, "");
    assert_eq!(ps[1].version, "");
    assert_eq!(ps[1].status, "unknown");
}

#[test]
fn packages_missing() {
    let e = list_packages(&obj(vec![("packages", s("none"))])).unwrap_err();
    assert_eq!(e, DsmError::FieldMissing { field: "packages".to_string() });
    assert_eq!(e.message(), "packages field missing");
}
