//! System information, utilisation and installed packages, read out of the
//! data of DSM replies.

use vstd::prelude::*;

use crate::dsm::client::DsmError;
use crate::json::{holds_count, holds_text_or, i64_at, lemma_readings, str_or, u64_at, Json, Number};
use crate::text::{
    colon_separated_u64s, decimal, lemma_decimal_digits, lemma_parse_decimal_u64, lemma_split_on_join,
    lemma_split_on_single, parse_u64, parsed_u64s, spec_parse_u64, split_on,
};

verus! {

/// Identity and health of the NAS.
#[derive(Debug, Clone, PartialEq, Eq)]
pub struct SystemInfo {
    pub model: String,
    pub serial: String,
    pub dsm_version: String,
    pub uptime_secs: u64,
    pub hostname: String,
    pub temperature_c: Option<i64>,
    pub ram_mb: u64,
}

/// Load of the NAS at one moment.
#[derive(Debug, Clone, PartialEq, Eq)]
pub struct SystemUtilisation {
    pub cpu_percent: u64,
    pub memory_total_mb: u64,
    pub memory_used_mb: u64,
    pub memory_percent: u64,
    pub network_rx_kbps: u64,
    pub network_tx_kbps: u64,
}

/// An installed DSM package.
#[derive(Debug, Clone, PartialEq, Eq)]
pub struct Package {
    pub id: String,
    pub name: String,
    pub version: String,
    pub status: String,
}

/// The seconds that an uptime text `H:M:S` denotes: of the `:`-separated
/// pieces, those that are numbers must be exactly three, hours, minutes and
/// seconds; otherwise there is no value.
pub open spec fn uptime_value(text: Seq<char>) -> Option<int> {
    let p = parsed_u64s(split_on(text, ':'));
    if p.len() == 3 {
        Some(p[0] * 3600 + p[1] * 60 + p[2])
    } else {
        None
    }
}

/// Whether the seconds of an uptime text, where there are any, fit in a `u64`.
pub open spec fn uptime_fits(text: Seq<char>) -> bool {
    match uptime_value(text) {
        Some(v) => v <= u64::MAX,
        None => true,
    }
}

/// Parses an uptime text `H:M:S` into seconds.
pub fn parse_uptime(text: &str) -> (r: Option<u64>)
    requires
        uptime_fits(text@),
    ensures
        match uptime_value(text@) {
            Some(v) => r == Some(v as u64),
            None => r is None,
        },
{
    let parts = colon_separated_u64s(text);
    if parts.len() == 3 {
        let h = parts[0];
        let m = parts[1];
        let s = parts[2];
        assert(h * 3600 <= u64::MAX && m * 60 <= u64::MAX && h * 3600 + m * 60 <= u64::MAX);
        Some(h * 3600 + m * 60 + s)
    } else {
        None
    }
}

/// Whether the uptime text of checked `up_time`, where there is one, fits.
pub fn uptime_in_range(text: &str) -> (r: bool)
    ensures
        r == uptime_fits(text@),
{
    let parts = colon_separated_u64s(text);
    if parts.len() == 3 {
        match parts[0].checked_mul(3600) {
            Some(a) => match parts[1].checked_mul(60) {
                Some(b) => match a.checked_add(b) {
                    Some(c) => c.checked_add(parts[2]).is_some(),
                    None => false,
                },
                None => false,
            },
            None => false,
        }
    } else {
        true
    }
}

/// The uptime that a system reply reports: its `up_time` text in seconds, or 0.
pub open spec fn reported_uptime(data: Json) -> int {
    match data.at("up_time"@).str_of() {
        Some(text) => match uptime_value(text) {
            Some(v) => v,
            None => 0,
        },
        None => 0,
    }
}

/// Whether the uptime that a system reply reports fits in a `u64`.
pub open spec fn system_info_fits(data: Json) -> bool {
    match data.at("up_time"@).str_of() {
        Some(text) => uptime_fits(text),
        None => true,
    }
}

/// The memory that a system reply reports, in MB: `ram_size` as a number, or
/// as a text that parses as one, or 0.
pub open spec fn reported_ram(data: Json) -> u64 {
    match data.at("ram_size"@).u64_of() {
        Some(n) => n,
        None => match data.at("ram_size"@).str_of() {
            Some(text) => match spec_parse_u64(text) {
                Some(n) => n,
                None => 0,
            },
            None => 0,
        },
    }
}

/// Whether a system reply can be read without an overflow of its uptime.
pub fn system_info_in_range(data: &Json) -> (r: bool)
    ensures
        r == system_info_fits(*data),
{
    match data.get("up_time") {
        Some(v) => match v.as_str() {
            Some(text) => uptime_in_range(text),
            None => true,
        },
        None => true,
    }
}

/// What `get_system_info` gives for the reply `data`.
pub open spec fn system_info_of(r: SystemInfo, data: Json) -> bool {
    &&& r.model@ == data.at("model"@).str_or("unknown"@)
    &&& r.serial@ == data.at("serial"@).str_or("unknown"@)
    &&& r.dsm_version@ == data.at("firmware_ver"@).str_or("unknown"@)
    &&& r.uptime_secs == reported_uptime(data)
    &&& r.hostname@ == data.at("hostname"@).str_or("DiskStation"@)
    &&& r.temperature_c == data.at("sys_temp"@).i64_of()
    &&& r.ram_mb == reported_ram(data)
}

/// The text fields of the system information are the reply's members of those
/// names where they are text (defaults otherwise); the temperature is
/// `sys_temp` where it is an integer that fits an `i64`; the memory is
/// `ram_size` where it is a non-negative integer, and 0 where it is neither
/// a number nor text.
pub proof fn lemma_system_info_fields(r: SystemInfo, data: Json)
    requires
        system_info_of(r, data),
    ensures
        holds_text_or(r.model@, data.at("model"@), "unknown"@),
        holds_text_or(r.serial@, data.at("serial"@), "unknown"@),
        holds_text_or(r.dsm_version@, data.at("firmware_ver"@), "unknown"@),
        holds_text_or(r.hostname@, data.at("hostname"@), "DiskStation"@),
        match data.at("sys_temp"@) {
            Json::Number(Number::PosInt(n)) => r.temperature_c == if n <= i64::MAX as u64 {
                Some(n as i64)
            } else {
                None
            },
            Json::Number(Number::NegInt(n)) => r.temperature_c == Some(n),
            _ => r.temperature_c is None,
        },
        match data.at("ram_size"@) {
            Json::Number(Number::PosInt(n)) => r.ram_mb == n,
            Json::String(_) => true,
            _ => r.ram_mb == 0,
        },
        !(data.at("up_time"@) is String) ==> r.uptime_secs == 0,
{
    lemma_readings(data.at("model"@), "unknown"@);
    lemma_readings(data.at("serial"@), "unknown"@);
    lemma_readings(data.at("firmware_ver"@), "unknown"@);
    lemma_readings(data.at("hostname"@), "DiskStation"@);
}

/// A reply whose `up_time` is the text `h:m:s` of decimal numbers reports
/// h·3600 + m·60 + s seconds of uptime.
pub proof fn lemma_system_info_uptime(r: SystemInfo, data: Json, h: u64, m: u64, s: u64)
    requires
        system_info_of(r, data),
        match data.at("up_time"@) {
            Json::String(t) => t@ == decimal(h as nat).push(':') + decimal(m as nat).push(':')
                + decimal(s as nat),
            _ => false,
        },
    ensures
        r.uptime_secs == h * 3600 + m * 60 + s,
{
    lemma_uptime_of_clock_text(h, m, s);
}

/// A reply whose `ram_size` is the decimal text of a number reports that
/// number of MB.
pub proof fn lemma_system_info_ram_text(r: SystemInfo, data: Json, n: u64)
    requires
        system_info_of(r, data),
        match data.at("ram_size"@) {
            Json::String(t) => t@ == decimal(n as nat),
            _ => false,
        },
    ensures
        r.ram_mb == n,
{
    lemma_parse_decimal_u64(n);
}

/// Reads the system information out of the data of a
/// `SYNO.Core.System` `info` reply.
pub fn get_system_info(data: &Json) -> (r: SystemInfo)
    requires
        system_info_fits(*data),
    ensures
        r.model@ == data.at("model"@).str_or("unknown"@),
        r.serial@ == data.at("serial"@).str_or("unknown"@),
        r.dsm_version@ == data.at("firmware_ver"@).str_or("unknown"@),
        r.uptime_secs == reported_uptime(*data),
        r.hostname@ == data.at("hostname"@).str_or("DiskStation"@),
        r.temperature_c == data.at("sys_temp"@).i64_of(),
        r.ram_mb == reported_ram(*data),
        system_info_of(r, *data),
{
    let uptime_secs = match data.get("up_time") {
        Some(v) => match v.as_str() {
            Some(text) => match parse_uptime(text) {
                Some(n) => n,
                None => 0,
            },
            None => 0,
        },
        None => 0,
    };
    let ram = data.get("ram_size");
    let ram_mb = match u64_at(ram) {
        Some(n) => n,
        None => match ram {
            Some(v) => match v.as_str() {
                Some(text) => match parse_u64(text) {
                    Some(n) => n,
                    None => 0,
                },
                None => 0,
            },
            None => 0,
        },
    };
    SystemInfo {
        model: str_or(data.get("model"), "unknown"),
        serial: str_or(data.get("serial"), "unknown"),
        dsm_version: str_or(data.get("firmware_ver"), "unknown"),
        uptime_secs,
        hostname: str_or(data.get("hostname"), "DiskStation"),
        temperature_c: i64_at(data.get("sys_temp")),
        ram_mb,
    }
}

/// The sum of the `key` members of `items` that are numbers (others count 0).
pub open spec fn sum_of(items: Seq<Json>, key: Seq<char>) -> nat
    decreases items.len(),
{
    if items.len() == 0 {
        0
    } else {
        sum_of(items.drop_last(), key) + items.last().at(key).u64_or_zero() as nat
    }
}

proof fn lemma_sum_of_prefix(items: Seq<Json>, key: Seq<char>, k: int)
    requires
        0 <= k <= items.len(),
    ensures
        sum_of(items.take(k), key) <= sum_of(items, key),
    decreases items.len() - k,
{
    if k < items.len() {
        lemma_sum_of_prefix(items, key, k + 1);
        assert(items.take(k + 1).drop_last() =~= items.take(k));
    } else {
        assert(items.take(k) =~= items);
    }
}

/// The network interfaces of a utilisation reply: `network` as a list, or none.
pub open spec fn interfaces(data: Json) -> Seq<Json> {
    match data.at("network"@).array_of() {
        Some(items) => items,
        None => seq![],
    }
}

/// The load that a utilisation reply reports for `group.key`, or 0.
pub open spec fn load(data: Json, group: Seq<char>, key: Seq<char>) -> u64 {
    data.at(group).at(key).u64_or_zero()
}

/// Whether the sums that a utilisation reply asks for fit in a `u64`: the user
/// and system CPU loads, and the bytes received and sent over all interfaces.
pub open spec fn utilisation_fits(data: Json) -> bool {
    &&& load(data, "cpu"@, "user_load"@) + load(data, "cpu"@, "system_load"@) <= u64::MAX
    &&& sum_of(interfaces(data), "rx"@) <= u64::MAX
    &&& sum_of(interfaces(data), "tx"@) <= u64::MAX
}

/// `a.saturating_sub(b)`.
pub open spec fn saturating_sub(a: u64, b: u64) -> u64 {
    if a >= b {
        (a - b) as u64
    } else {
        0
    }
}

fn load_of(data: &Json, group: &str, key: &str) -> (r: u64)
    ensures
        r == load(*data, group@, key@),
{
    match data.get(group) {
        Some(g) => match u64_at(g.get(key)) {
            Some(n) => n,
            None => 0,
        },
        None => 0,
    }
}

fn sum_checked(items: &Vec<Json>, key: &str) -> (r: Option<u64>)
    ensures
        match r {
            Some(n) => n == sum_of(items@, key@),
            None => sum_of(items@, key@) > u64::MAX,
        },
{
    let mut total: u64 = 0;
    let mut i: usize = 0;
    assert(items@.take(0) =~= Seq::<Json>::empty());
    while i < items.len()
        invariant
            0 <= i <= items@.len(),
            total == sum_of(items@.take(i as int), key@),
        decreases items@.len() - i,
    {
        assert(items@.take(i + 1).drop_last() =~= items@.take(i as int));
        let n = match u64_at(items[i].get(key)) {
            Some(n) => n,
            None => 0,
        };
        match total.checked_add(n) {
            Some(t) => {
                total = t;
            },
            None => {
                proof {
                    lemma_sum_of_prefix(items@, key@, i + 1);
                }
                return None;
            },
        }
        i = i + 1;
    }
    assert(items@.take(i as int) =~= items@);
    Some(total)
}

fn sum_in_range(data: &Json, key: &str) -> (r: bool)
    ensures
        r == (sum_of(interfaces(*data), key@) <= u64::MAX),
{
    match data.get("network") {
        Some(v) => match v.as_array() {
            Some(items) => sum_checked(items, key).is_some(),
            None => true,
        },
        None => true,
    }
}

/// Whether a utilisation reply can be read without an overflow of its sums.
pub fn utilisation_in_range(data: &Json) -> (r: bool)
    ensures
        r == utilisation_fits(*data),
{
    let user = load_of(data, "cpu", "user_load");
    let system = load_of(data, "cpu", "system_load");
    user.checked_add(system).is_some() && sum_in_range(data, "rx") && sum_in_range(data, "tx")
}

fn sum_at(data: &Json, key: &str) -> (r: u64)
    requires
        sum_of(interfaces(*data), key@) <= u64::MAX,
    ensures
        r == sum_of(interfaces(*data), key@),
{
    match data.get("network") {
        Some(v) => match v.as_array() {
            Some(items) => match sum_checked(items, key) {
                Some(n) => n,
                None => 0,
            },
            None => 0,
        },
        None => 0,
    }
}

/// What `get_system_utilisation` gives for the reply `data`.
pub open spec fn utilisation_of(r: SystemUtilisation, data: Json) -> bool {
    &&& r.cpu_percent == load(data, "cpu"@, "user_load"@) + load(data, "cpu"@, "system_load"@)
    &&& r.memory_total_mb == load(data, "memory"@, "total_real"@) / 1024
    &&& r.memory_used_mb == saturating_sub(
        load(data, "memory"@, "total_real"@) / 1024,
        load(data, "memory"@, "avail_real"@) / 1024,
    )
    &&& r.memory_percent == load(data, "memory"@, "real_usage"@)
    &&& r.network_rx_kbps == sum_of(interfaces(data), "rx"@) / 1024
    &&& r.network_tx_kbps == sum_of(interfaces(data), "tx"@) / 1024
}

/// The throughput of no interfaces is 0.
pub proof fn lemma_sum_of_none(key: Seq<char>)
    ensures
        sum_of(seq![], key) == 0,
{
}

/// One more interface adds exactly its own bytes to the total, whatever the
/// number of interfaces before it: its `key` member where that is a
/// non-negative integer, else nothing.
pub proof fn lemma_sum_of_one_more(items: Seq<Json>, x: Json, key: Seq<char>)
    ensures
        holds_count(sum_of(items.push(x), key) - sum_of(items, key), x.at(key)),
{
    assert(items.push(x).drop_last() =~= items);
    lemma_readings(x.at(key), seq![]);
}

/// The throughput of interfaces placed one after another is the sum of
/// their throughputs.
pub proof fn lemma_sum_of_concat(a: Seq<Json>, b: Seq<Json>, key: Seq<char>)
    ensures
        sum_of(a + b, key) == sum_of(a, key) + sum_of(b, key),
    decreases b.len(),
{
    if b.len() == 0 {
        assert(a + b =~= a);
    } else {
        lemma_sum_of_concat(a, b.drop_last(), key);
        assert((a + b).drop_last() =~= a + b.drop_last());
        assert((a + b).last() == b.last());
    }
}

/// The load fields are the reply's counts: the CPU load is `cpu.user_load`
/// plus `cpu.system_load`, the memory in MB is the KB of `memory.total_real`
/// in whole 1024s, the used memory is that less the whole 1024s of
/// `memory.avail_real` (0 where they exceed it), the usage is
/// `memory.real_usage`, and the throughput is the bytes of all interfaces
/// in whole 1024s (0 without a `network` list); a count is its member where
/// that is a non-negative integer, and 0 otherwise.
pub proof fn lemma_utilisation_fields(r: SystemUtilisation, data: Json)
    requires
        utilisation_of(r, data),
    ensures
        exists|user: int, system: int|
            holds_count(user, data.at("cpu"@).at("user_load"@)) && holds_count(
                system,
                data.at("cpu"@).at("system_load"@),
            ) && r.cpu_percent == user + system,
        exists|total: int|
            holds_count(total, data.at("memory"@).at("total_real"@)) && r.memory_total_mb * 1024
                <= total < (r.memory_total_mb + 1) * 1024,
        exists|avail: int|
            holds_count(avail, data.at("memory"@).at("avail_real"@)) && if avail / 1024
                <= r.memory_total_mb {
                r.memory_used_mb + avail / 1024 == r.memory_total_mb
            } else {
                r.memory_used_mb == 0
            },
        holds_count(r.memory_percent as int, data.at("memory"@).at("real_usage"@)),
        match data.at("network"@) {
            Json::Array(items) => r.network_rx_kbps * 1024 <= sum_of(items@, "rx"@) < (
            r.network_rx_kbps + 1) * 1024 && r.network_tx_kbps * 1024 <= sum_of(items@, "tx"@) < (
            r.network_tx_kbps + 1) * 1024,
            _ => r.network_rx_kbps == 0 && r.network_tx_kbps == 0,
        },
{
    let u = data.at("cpu"@).at("user_load"@);
    let sy = data.at("cpu"@).at("system_load"@);
    let t = data.at("memory"@).at("total_real"@);
    let a = data.at("memory"@).at("avail_real"@);
    lemma_readings(u, seq![]);
    lemma_readings(sy, seq![]);
    lemma_readings(t, seq![]);
    lemma_readings(a, seq![]);
    lemma_readings(data.at("memory"@).at("real_usage"@), seq![]);
    assert(holds_count(u.u64_or_zero() as int, u) && holds_count(sy.u64_or_zero() as int, sy));
    let tv = t.u64_or_zero() as int;
    assert(r.memory_total_mb * 1024 <= tv < (r.memory_total_mb + 1) * 1024);
    assert(holds_count(tv, t));
    let av = a.u64_or_zero() as int;
    assert(holds_count(av, a));
    match data.at("network"@) {
        Json::Array(items) => {
            let rx = sum_of(items@, "rx"@);
            let tx = sum_of(items@, "tx"@);
            assert(r.network_rx_kbps * 1024 <= rx < (r.network_rx_kbps + 1) * 1024);
            assert(r.network_tx_kbps * 1024 <= tx < (r.network_tx_kbps + 1) * 1024);
        },
        _ => {
            assert(sum_of(seq![], "rx"@) == 0);
            assert(sum_of(seq![], "tx"@) == 0);
        },
    }
}

/// Reads the utilisation out of the data of a
/// `SYNO.Core.System.Utilization` `get` reply: CPU load as user plus system
/// load, memory in MB (KB divided by 1024, rounding down) with the used part
/// as total less available (0 where available exceeds total), and the
/// throughput of all interfaces together in KB (bytes divided by 1024).
pub fn get_system_utilisation(data: &Json) -> (r: SystemUtilisation)
    requires
        utilisation_fits(*data),
    ensures
        r.cpu_percent == load(*data, "cpu"@, "user_load"@) + load(*data, "cpu"@, "system_load"@),
        r.memory_total_mb == load(*data, "memory"@, "total_real"@) / 1024,
        r.memory_used_mb == saturating_sub(
            load(*data, "memory"@, "total_real"@) / 1024,
            load(*data, "memory"@, "avail_real"@) / 1024,
        ),
        r.memory_used_mb <= r.memory_total_mb,
        r.memory_percent == load(*data, "memory"@, "real_usage"@),
        r.network_rx_kbps == sum_of(interfaces(*data), "rx"@) / 1024,
        r.network_tx_kbps == sum_of(interfaces(*data), "tx"@) / 1024,
        utilisation_of(r, *data),
{
    let cpu_percent = load_of(data, "cpu", "user_load") + load_of(data, "cpu", "system_load");
    let memory_total_mb = load_of(data, "memory", "total_real") / 1024;
    let avail_mb = load_of(data, "memory", "avail_real") / 1024;
    let memory_used_mb = memory_total_mb.saturating_sub(avail_mb);
    let memory_percent = load_of(data, "memory", "real_usage");
    let rx = sum_at(data, "rx");
    let tx = sum_at(data, "tx");
    SystemUtilisation {
        cpu_percent,
        memory_total_mb,
        memory_used_mb,
        memory_percent,
        network_rx_kbps: rx / 1024,
        network_tx_kbps: tx / 1024,
    }
}

/// The package that one item of a package list describes.
pub open spec fn package_of(p: Package, item: Json) -> bool {
    &&& p.id@ == item.at("id"@).str_or(""@)
    &&& p.name@ == item.at("name"@).str_or(""@)
    &&& p.version@ == item.at("version"@).str_or(""@)
    &&& p.status@ == item.at("status"@).str_or("unknown"@)
}

/// Each member of a package item lands in the field of its name: a text
/// member as it is, and the default (`unknown` for the status, else empty)
/// where it is absent or not text.
pub proof fn lemma_package_fields(p: Package, item: Json)
    requires
        package_of(p, item),
    ensures
        holds_text_or(p.id@, item.at("id"@), ""@),
        holds_text_or(p.name@, item.at("name"@), ""@),
        holds_text_or(p.version@, item.at("version"@), ""@),
        holds_text_or(p.status@, item.at("status"@), "unknown"@),
{
    lemma_readings(item.at("id"@), ""@);
    lemma_readings(item.at("name"@), ""@);
    lemma_readings(item.at("version"@), ""@);
    lemma_readings(item.at("status"@), "unknown"@);
}

/// What `list_packages` gives for the reply `data`.
pub open spec fn list_packages_listed(r: Result<Vec<Package>, DsmError>, data: Json) -> bool {
    match r {
        Ok(xs) => match data.at("packages"@).array_of() {
            Some(items) => xs@.len() == items.len() && forall|i: int|
                0 <= i < items.len() ==> package_of(#[trigger] xs@[i], items[i]),
            None => false,
        },
        Err(DsmError::FieldMissing { field }) => data.at("packages"@).array_of() is None && field@
            == "packages"@,
        Err(_) => false,
    }
}

/// A reply whose `packages` member is a list gives one entry per item, in the
/// same order, each made of the members of its own item; any other reply
/// fails naming the missing `packages` list.
pub proof fn lemma_packages_listed(r: Result<Vec<Package>, DsmError>, data: Json)
    requires
        list_packages_listed(r, data),
    ensures
        match data.at("packages"@) {
            Json::Array(items) => r matches Ok(xs) && xs@.len() == items@.len() && forall|i: int|
                0 <= i < items@.len() ==> {
                    let x = #[trigger] xs@[i];
                    let item = items@[i];
                    &&& holds_text_or(x.id@, item.at("id"@), ""@)
                    &&& holds_text_or(x.name@, item.at("name"@), ""@)
                    &&& holds_text_or(x.version@, item.at("version"@), ""@)
                    &&& holds_text_or(x.status@, item.at("status"@), "unknown"@)
                },
            _ => r matches Err(DsmError::FieldMissing { field }) && field@ == "packages"@,
        },
{
    match r {
        Ok(xs) => {
            let items = data.at("packages"@).array_of().unwrap();
            assert forall|i: int| 0 <= i < items.len() implies package_of(#[trigger] xs@[i], items[i]) by {}
            assert forall|i: int| 0 <= i < items.len() implies {
                let x = #[trigger] xs@[i];
                let item = items[i];
                &&& holds_text_or(x.id@, item.at("id"@), ""@)
                    &&& holds_text_or(x.name@, item.at("name"@), ""@)
                    &&& holds_text_or(x.version@, item.at("version"@), ""@)
                    &&& holds_text_or(x.status@, item.at("status"@), "unknown"@)
            } by {
                lemma_package_fields(xs@[i], items[i]);
            }
        },
        Err(_) => {},
    }
}

/// Reads the installed packages out of the data of a `SYNO.Core.Package`
/// `list` reply: one package per item of its `packages` list, in order; an
/// error where there is no such list.
pub fn list_packages(data: &Json) -> (r: Result<Vec<Package>, DsmError>)
    ensures
        match r {
            Ok(ps) => match data.at("packages"@).array_of() {
                Some(items) => ps@.len() == items.len() && forall|i: int|
                    0 <= i < items.len() ==> package_of(#[trigger] ps@[i], items[i]),
                None => false,
            },
            Err(DsmError::FieldMissing { field }) => data.at("packages"@).array_of() is None
                && field@ == "packages"@,
            Err(_) => false,
        },
        list_packages_listed(r, *data),
{
    let items = match data.get("packages") {
        Some(v) => match v.as_array() {
            Some(items) => items,
            None => {
                return Err(DsmError::FieldMissing { field: String::from_str("packages") });
            },
        },
        None => {
            return Err(DsmError::FieldMissing { field: String::from_str("packages") });
        },
    };
    let mut ps: Vec<Package> = Vec::new();
    let mut i: usize = 0;
    while i < items.len()
        invariant
            0 <= i <= items@.len(),
            ps@.len() == i,
            forall|j: int| 0 <= j < i ==> package_of(#[trigger] ps@[j], items@[j]),
        decreases items@.len() - i,
    {
        let item = &items[i];
        ps.push(
            Package {
                id: str_or(item.get("id"), ""),
                name: str_or(item.get("name"), ""),
                version: str_or(item.get("version"), ""),
                status: str_or(item.get("status"), "unknown"),
            },
        );
        i = i + 1;
    }
    Ok(ps)
}

/// An uptime written as `H:M:S` in decimal reads as H·3600 + M·60 + S seconds.
pub proof fn lemma_uptime_of_clock_text(h: u64, m: u64, s: u64)
    ensures
        uptime_value(decimal(h as nat).push(':') + decimal(m as nat).push(':') + decimal(s as nat))
            == Some(h * 3600 + m * 60 + s),
{
    let dh = decimal(h as nat);
    let dm = decimal(m as nat);
    let ds = decimal(s as nat);
    lemma_decimal_digits(h as nat);
    lemma_decimal_digits(m as nat);
    lemma_decimal_digits(s as nat);
    lemma_parse_decimal_u64(h);
    lemma_parse_decimal_u64(m);
    lemma_parse_decimal_u64(s);
    lemma_split_on_single(dh, ':');
    lemma_split_on_join(dh, dm, ':');
    let x = dh.push(':') + dm;
    lemma_split_on_join(x, ds, ':');
    let text = dh.push(':') + dm.push(':') + ds;
    assert(text =~= x.push(':') + ds);
    let pieces = seq![dh, dm, ds];
    assert(split_on(text, ':') =~= pieces);
    assert(pieces.drop_last() =~= seq![dh, dm]);
    assert(seq![dh, dm].drop_last() =~= seq![dh]);
    assert(seq![dh].drop_last() =~= Seq::<Seq<char>>::empty());
    assert(parsed_u64s(Seq::<Seq<char>>::empty()) =~= Seq::<u64>::empty());
    assert(seq![dh].last() == dh);
    assert(parsed_u64s(seq![dh]) =~= seq![h]);
    assert(parsed_u64s(seq![dh, dm]) =~= seq![h, m]);
    assert(parsed_u64s(pieces) =~= seq![h, m, s]);
}

}
