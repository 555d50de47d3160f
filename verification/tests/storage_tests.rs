use synology_mcp::dsm::client::DsmError;
use synology_mcp::dsm::storage::{get_disks, get_volumes};
use synology_mcp::json::{Json, Number};

fn s(t: &str) -> Json {
    Json::String(t.to_string())
}

fn obj(members: Vec<(&str, Json)>) -> Json {
    Json::Object(members.into_iter().map(|(k, v)| (k.to_string(), v)).collect())
}

#[test]
fn volumes_in_order_with_defaults() {
    let data = obj(vec![(
        "volumes",
        Json::Array(vec![
            obj(vec![
                ("id", s("volume_1")),
                ("total_size", s("3990000000000")),
                ("used_size", s("1000000000000")),
                ("status", s("normal")),
                ("fs_type", s("btrfs")),
            ]),
            obj(vec![("total_size", Json::Number(Number::PosInt(5)))]),
        ]),
    )]);
    let vs = get_volumes(&data).unwrap();
    assert_eq!(vs.len(), 2);
    assert_eq!(vs[0].id, "volume_1");
    assert_eq!(vs[0].total_size.as_deref(), Some("3990000000000"));
    assert_eq!(vs[0].used_size.as_deref(), Some("1000000000000"));
    assert_eq!(vs[0].status, "normal");
    assert_eq!(vs[0].fs_type, "btrfs");
    assert_eq!(vs[1].id, "");
    assert_eq!(vs[1].total_size, None);
    assert_eq!(vs[1].used_size, None);
    assert_eq!(vs[1].status, "unknown");
    assert_eq!(vs[1].fs_type, "unknown");
}

#[test]
fn volumes_missing() {
    let e = get_volumes(&obj(vec![])).unwrap_err();
    assert_eq!(e, DsmError::FieldMissing { field: "volumes".to_string() });
    assert_eq!(e.message(), "volumes field missing");
}

#[test]
fn disks_in_order_with_defaults() {
    let data = obj(vec![(
        "disks",
        Json::Array(vec![
            obj(vec![
                ("id", s("sata1")),
                ("model", s("WD40EFRX")),
                ("serial", s("WD-1")),
                ("temp", Json::Number(Number::PosInt(34))),
                ("status", s("normal")),
                ("smart_status", s("normal")),
                ("size_total", s("4000787030016")),
                ("location", Json::Number(Number::PosInt(1))),
                ("diskType", s("SATA")),
            ]),
            obj(vec![("temp", Json::Number(Number::Float)), ("location", Json::Number(Number::NegInt(-1)))]),
        ]),
    )]);
    let ds = get_disks(&data).unwrap();
    assert_eq!(ds.len(), 2);
    assert_eq!(ds[0].id, "sata1");
    assert_eq!(ds[0].model, "WD40EFRX");
    assert_eq!(ds[0].serial, "WD-1");
    assert_eq!(ds[0].temp_c, Some(34));
    assert_eq!(ds[0].status, "normal");
    assert_eq!(ds[0].smart_status, "normal");
    assert_eq!(ds[0].size_total.as_deref(), Some("4000787030016"));
    assert_eq!(ds[0].location, Some(1));
    assert_eq!(ds[0].disk_type, "SATA");
    assert_eq!(ds[1].id, "");
    assert_eq!(ds[1].model, "unknown");
    assert_eq!(ds[1].temp_c, None);
    assert_eq!(ds[1].location, None);
    assert_eq!(ds[1].size_total, None);
    assert_eq!(ds[1].disk_type, "unknown");
}

#[test]
fn disks_missing() {
    let e = get_disks(&Json::Array(vec![])).unwrap_err();
    assert_eq!(e, DsmError::FieldMissing { field: "disks".to_string() });
    assert_eq!(e.message(), "disks field missing");
}
