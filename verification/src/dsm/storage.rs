//! Volumes and disks, read out of the data of a DSM storage reply.
//!
//! Sizes stay as the text the reply gives; turning them into gigabytes is
//! floating-point arithmetic and happens where the entries are shown.

use vstd::prelude::*;

use crate::dsm::client::DsmError;
use crate::json::{holds_text_or, i64_at, lemma_readings, str_or, u64_at, Json, Number};

verus! {

/// A storage volume as the reply describes it.
#[derive(Debug, Clone, PartialEq, Eq)]
pub struct VolumeEntry {
    pub id: String,
    /// `total_size` in bytes, as text, where the reply gives it as text.
    pub total_size: Option<String>,
    /// `used_size` in bytes, as text, where the reply gives it as text.
    pub used_size: Option<String>,
    pub status: String,
    pub fs_type: String,
}

/// A drive as the reply describes it.
#[derive(Debug, Clone, PartialEq, Eq)]
pub struct DiskEntry {
    pub id: String,
    pub model: String,
    pub serial: String,
    pub temp_c: Option<i64>,
    pub status: String,
    pub smart_status: String,
    /// `size_total` in bytes, as text, where the reply gives it as text.
    pub size_total: Option<String>,
    pub location: Option<u64>,
    pub disk_type: String,
}

/// The text of an optional string.
pub open spec fn text_of(o: Option<String>) -> Option<Seq<char>> {
    match o {
        Some(s) => Some(s@),
        None => None,
    }
}

/// The volume that one item of the `volumes` list describes.
pub open spec fn volume_of(v: VolumeEntry, item: Json) -> bool {
    &&& v.id@ == item.at("id"@).str_or(""@)
    &&& text_of(v.total_size) == item.at("total_size"@).str_of()
    &&& text_of(v.used_size) == item.at("used_size"@).str_of()
    &&& v.status@ == item.at("status"@).str_or("unknown"@)
    &&& v.fs_type@ == item.at("fs_type"@).str_or("unknown"@)
}

/// The drive that one item of the `disks` list describes.
pub open spec fn disk_of(d: DiskEntry, item: Json) -> bool {
    &&& d.id@ == item.at("id"@).str_or(""@)
    &&& d.model@ == item.at("model"@).str_or("unknown"@)
    &&& d.serial@ == item.at("serial"@).str_or("unknown"@)
    &&& d.temp_c == item.at("temp"@).i64_of()
    &&& d.status@ == item.at("status"@).str_or("unknown"@)
    &&& d.smart_status@ == item.at("smart_status"@).str_or("unknown"@)
    &&& text_of(d.size_total) == item.at("size_total"@).str_of()
    &&& d.location == item.at("location"@).u64_of()
    &&& d.disk_type@ == item.at("diskType"@).str_or("unknown"@)
}

/// Each member of a volume item lands in the field of its name: a text member
/// as it is (the default where it is absent or not text), and the sizes as
/// the item's texts.
pub proof fn lemma_volume_fields(v: VolumeEntry, item: Json)
    requires
        volume_of(v, item),
    ensures
        holds_text_or(v.id@, item.at("id"@), ""@),
        holds_text_or(v.status@, item.at("status"@), "unknown"@),
        holds_text_or(v.fs_type@, item.at("fs_type"@), "unknown"@),
        match item.at("total_size"@) {
            Json::String(t) => v.total_size matches Some(s) && s@ == t@,
            _ => v.total_size is None,
        },
        match item.at("used_size"@) {
            Json::String(t) => v.used_size matches Some(s) && s@ == t@,
            _ => v.used_size is None,
        },
{
    lemma_readings(item.at("id"@), ""@);
    lemma_readings(item.at("status"@), "unknown"@);
    lemma_readings(item.at("fs_type"@), "unknown"@);
}

/// Each member of a disk item lands in the field of its name: a text member
/// as it is (the default where it is absent or not text), the temperature as
/// an integer that fits an `i64`, the location as a non-negative integer.
pub proof fn lemma_disk_fields(d: DiskEntry, item: Json)
    requires
        disk_of(d, item),
    ensures
        holds_text_or(d.id@, item.at("id"@), ""@),
        holds_text_or(d.model@, item.at("model"@), "unknown"@),
        holds_text_or(d.serial@, item.at("serial"@), "unknown"@),
        holds_text_or(d.status@, item.at("status"@), "unknown"@),
        holds_text_or(d.smart_status@, item.at("smart_status"@), "unknown"@),
        holds_text_or(d.disk_type@, item.at("diskType"@), "unknown"@),
        match item.at("temp"@) {
            Json::Number(Number::PosInt(n)) => d.temp_c == if n <= i64::MAX as u64 {
                Some(n as i64)
            } else {
                None
            },
            Json::Number(Number::NegInt(n)) => d.temp_c == Some(n),
            _ => d.temp_c is None,
        },
        match item.at("size_total"@) {
            Json::String(t) => d.size_total matches Some(s) && s@ == t@,
            _ => d.size_total is None,
        },
        match item.at("location"@) {
            Json::Number(Number::PosInt(n)) => d.location == Some(n),
            _ => d.location is None,
        },
{
    lemma_readings(item.at("id"@), ""@);
    lemma_readings(item.at("model"@), "unknown"@);
    lemma_readings(item.at("serial"@), "unknown"@);
    lemma_readings(item.at("status"@), "unknown"@);
    lemma_readings(item.at("smart_status"@), "unknown"@);
    lemma_readings(item.at("diskType"@), "unknown"@);
}

fn text_at(value: Option<&Json>) -> (r: Option<String>)
    ensures
        text_of(r) == match value {
            Some(v) => v.str_of(),
            None => Json::Null.str_of(),
        },
{
    match value {
        Some(v) => match v.as_str() {
            Some(s) => Some(String::from_str(s)),
            None => None,
        },
        None => None,
    }
}

/// The list named `field` in `data`, or the error that it is missing.
fn list_at<'a>(data: &'a Json, field: &str) -> (r: Result<&'a Vec<Json>, DsmError>)
    ensures
        match r {
            Ok(items) => data.at(field@).array_of() == Some(items@),
            Err(DsmError::FieldMissing { field: f }) => data.at(field@).array_of() is None && f@
                == field@,
            Err(_) => false,
        },
{
    match data.get(field) {
        Some(v) => match v.as_array() {
            Some(items) => Ok(items),
            None => Err(DsmError::FieldMissing { field: String::from_str(field) }),
        },
        None => Err(DsmError::FieldMissing { field: String::from_str(field) }),
    }
}

/// What `get_volumes` gives for the reply `data`.
pub open spec fn get_volumes_listed(r: Result<Vec<VolumeEntry>, DsmError>, data: Json) -> bool {
    match r {
        Ok(xs) => match data.at("volumes"@).array_of() {
            Some(items) => xs@.len() == items.len() && forall|i: int|
                0 <= i < items.len() ==> volume_of(#[trigger] xs@[i], items[i]),
            None => false,
        },
        Err(DsmError::FieldMissing { field }) => data.at("volumes"@).array_of() is None && field@
            == "volumes"@,
        Err(_) => false,
    }
}

/// A reply whose `volumes` member is a list gives one entry per item, in the
/// same order, each made of the members of its own item; any other reply
/// fails naming the missing `volumes` list.
pub proof fn lemma_volumes_listed(r: Result<Vec<VolumeEntry>, DsmError>, data: Json)
    requires
        get_volumes_listed(r, data),
    ensures
        match data.at("volumes"@) {
            Json::Array(items) => r matches Ok(xs) && xs@.len() == items@.len() && forall|i: int|
                0 <= i < items@.len() ==> {
                    let x = #[trigger] xs@[i];
                    let item = items@[i];
                    &&& holds_text_or(x.id@, item.at("id"@), ""@)
                    &&& holds_text_or(x.status@, item.at("status"@), "unknown"@)
                    &&& holds_text_or(x.fs_type@, item.at("fs_type"@), "unknown"@)
                    &&& (item.at("total_size"@) matches Json::String(t) ==> (x.total_size matches Some(s) && s@ == t@))
                    &&& (item.at("used_size"@) matches Json::String(t) ==> (x.used_size matches Some(s) && s@ == t@))
                },
            _ => r matches Err(DsmError::FieldMissing { field }) && field@ == "volumes"@,
        },
{
    match r {
        Ok(xs) => {
            let items = data.at("volumes"@).array_of().unwrap();
            assert forall|i: int| 0 <= i < items.len() implies volume_of(#[trigger] xs@[i], items[i]) by {}
            assert forall|i: int| 0 <= i < items.len() implies {
                let x = #[trigger] xs@[i];
                let item = items[i];
                &&& holds_text_or(x.id@, item.at("id"@), ""@)
                    &&& holds_text_or(x.status@, item.at("status"@), "unknown"@)
                    &&& holds_text_or(x.fs_type@, item.at("fs_type"@), "unknown"@)
                    &&& (item.at("total_size"@) matches Json::String(t) ==> (x.total_size matches Some(s) && s@ == t@))
                    &&& (item.at("used_size"@) matches Json::String(t) ==> (x.used_size matches Some(s) && s@ == t@))
            } by {
                lemma_volume_fields(xs@[i], items[i]);
            }
        },
        Err(_) => {},
    }
}

/// What `get_disks` gives for the reply `data`.
pub open spec fn get_disks_listed(r: Result<Vec<DiskEntry>, DsmError>, data: Json) -> bool {
    match r {
        Ok(xs) => match data.at("disks"@).array_of() {
            Some(items) => xs@.len() == items.len() && forall|i: int|
                0 <= i < items.len() ==> disk_of(#[trigger] xs@[i], items[i]),
            None => false,
        },
        Err(DsmError::FieldMissing { field }) => data.at("disks"@).array_of() is None && field@
            == "disks"@,
        Err(_) => false,
    }
}

/// A reply whose `disks` member is a list gives one entry per item, in the
/// same order, each made of the members of its own item; any other reply
/// fails naming the missing `disks` list.
pub proof fn lemma_disks_listed(r: Result<Vec<DiskEntry>, DsmError>, data: Json)
    requires
        get_disks_listed(r, data),
    ensures
        match data.at("disks"@) {
            Json::Array(items) => r matches Ok(xs) && xs@.len() == items@.len() && forall|i: int|
                0 <= i < items@.len() ==> {
                    let x = #[trigger] xs@[i];
                    let item = items@[i];
                    &&& holds_text_or(x.id@, item.at("id"@), ""@)
                    &&& holds_text_or(x.model@, item.at("model"@), "unknown"@)
                    &&& holds_text_or(x.serial@, item.at("serial"@), "unknown"@)
                    &&& holds_text_or(x.status@, item.at("status"@), "unknown"@)
                    &&& holds_text_or(x.smart_status@, item.at("smart_status"@), "unknown"@)
                    &&& holds_text_or(x.disk_type@, item.at("diskType"@), "unknown"@)
                    &&& (item.at("size_total"@) matches Json::String(t) ==> (x.size_total matches Some(s) && s@ == t@))
                },
            _ => r matches Err(DsmError::FieldMissing { field }) && field@ == "disks"@,
        },
{
    match r {
        Ok(xs) => {
            let items = data.at("disks"@).array_of().unwrap();
            assert forall|i: int| 0 <= i < items.len() implies disk_of(#[trigger] xs@[i], items[i]) by {}
            assert forall|i: int| 0 <= i < items.len() implies {
                let x = #[trigger] xs@[i];
                let item = items[i];
                &&& holds_text_or(x.id@, item.at("id"@), ""@)
                    &&& holds_text_or(x.model@, item.at("model"@), "unknown"@)
                    &&& holds_text_or(x.serial@, item.at("serial"@), "unknown"@)
                    &&& holds_text_or(x.status@, item.at("status"@), "unknown"@)
                    &&& holds_text_or(x.smart_status@, item.at("smart_status"@), "unknown"@)
                    &&& holds_text_or(x.disk_type@, item.at("diskType"@), "unknown"@)
                    &&& (item.at("size_total"@) matches Json::String(t) ==> (x.size_total matches Some(s) && s@ == t@))
            } by {
                lemma_disk_fields(xs@[i], items[i]);
            }
        },
        Err(_) => {},
    }
}

/// Reads the volumes out of the data of a `SYNO.Storage.CGI.Storage`
/// `load_info` reply: one entry per item of its `volumes` list, in order; an
/// error where there is no such list.
pub fn get_volumes(data: &Json) -> (r: Result<Vec<VolumeEntry>, DsmError>)
    ensures
        match r {
            Ok(vs) => match data.at("volumes"@).array_of() {
                Some(items) => vs@.len() == items.len() && forall|i: int|
                    0 <= i < items.len() ==> volume_of(#[trigger] vs@[i], items[i]),
                None => false,
            },
            Err(DsmError::FieldMissing { field }) => data.at("volumes"@).array_of() is None
                && field@ == "volumes"@,
            Err(_) => false,
        },
        get_volumes_listed(r, *data),
{
    let items = list_at(data, "volumes")?;
    let mut vs: Vec<VolumeEntry> = Vec::new();
    let mut i: usize = 0;
    while i < items.len()
        invariant
            0 <= i <= items@.len(),
            vs@.len() == i,
            forall|j: int| 0 <= j < i ==> volume_of(#[trigger] vs@[j], items@[j]),
        decreases items@.len() - i,
    {
        let item = &items[i];
        vs.push(
            VolumeEntry {
                id: str_or(item.get("id"), ""),
                total_size: text_at(item.get("total_size")),
                used_size: text_at(item.get("used_size")),
                status: str_or(item.get("status"), "unknown"),
                fs_type: str_or(item.get("fs_type"), "unknown"),
            },
        );
        i = i + 1;
    }
    Ok(vs)
}

/// Reads the drives out of the data of a `SYNO.Storage.CGI.Storage`
/// `load_info` reply: one entry per item of its `disks` list, in order; an
/// error where there is no such list.
pub fn get_disks(data: &Json) -> (r: Result<Vec<DiskEntry>, DsmError>)
    ensures
        match r {
            Ok(ds) => match data.at("disks"@).array_of() {
                Some(items) => ds@.len() == items.len() && forall|i: int|
                    0 <= i < items.len() ==> disk_of(#[trigger] ds@[i], items[i]),
                None => false,
            },
            Err(DsmError::FieldMissing { field }) => data.at("disks"@).array_of() is None
                && field@ == "disks"@,
            Err(_) => false,
        },
        get_disks_listed(r, *data),
{
    let items = list_at(data, "disks")?;
    let mut ds: Vec<DiskEntry> = Vec::new();
    let mut i: usize = 0;
    while i < items.len()
        invariant
            0 <= i <= items@.len(),
            ds@.len() == i,
            forall|j: int| 0 <= j < i ==> disk_of(#[trigger] ds@[j], items@[j]),
        decreases items@.len() - i,
    {
        let item = &items[i];
        ds.push(
            DiskEntry {
                id: str_or(item.get("id"), ""),
                model: str_or(item.get("model"), "unknown"),
                serial: str_or(item.get("serial"), "unknown"),
                temp_c: i64_at(item.get("temp")),
                status: str_or(item.get("status"), "unknown"),
                smart_status: str_or(item.get("smart_status"), "unknown"),
                size_total: text_at(item.get("size_total")),
                location: u64_at(item.get("location")),
                disk_type: str_or(item.get("diskType"), "unknown"),
            },
        );
        i = i + 1;
    }
    Ok(ds)
}

}
