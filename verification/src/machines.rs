//! Machines read back from their workloads: the typed data of a VM or of a
//! kubernetes node, what the node reported about the machine, and the machine
//! assembled from those and from what was looked up elsewhere (its flist
//! checksum and its public addresses).

use std::collections::HashMap;

use vstd::prelude::*;

use crate::env_vars::{entries_map, EnvVars};
use crate::error::{is_not_found, is_validation, GridError};
use crate::json::{
    clone_json, field, field_bool, field_text, field_u64, get_text, get_u64, json_parse, lemma_item_models_len, text_of,
    JsonModel, JsonValue,
};
use crate::live::challenge::{
    bool_or_false, env_all, env_field, field_u8, pair_list, pair_view, pairs_all, read_bool_or_false, read_env,
    read_pair_list, read_u8,
};
use crate::live::payload::{key_index, lemma_member_at};
use crate::text::str_eq;
use crate::workloads::{self, Deployment, Disk, K8sCluster, K8sNode, Mount, Volume, QSFS, VM, VMLight, ZDB};
use crate::zos;

verus! {

// ---------------------------------------------------------------------------
// Shared pieces
// ---------------------------------------------------------------------------

/// The map that inserting `es` in order builds: a later key wins.
pub open spec fn pairs_map(es: Seq<(Seq<char>, Seq<char>)>) -> Map<Seq<char>, Seq<char>>
    decreases es.len(),
{
    if es.len() == 0 {
        Map::empty()
    } else {
        pairs_map(es.drop_last()).insert(es.last().0, es.last().1)
    }
}

/// The (name, mount point) pairs of mounts.
pub open spec fn mount_views(ms: Seq<Mount>) -> Seq<(Seq<char>, Seq<char>)> {
    ms.map_values(|m: Mount| (m.name@, m.mount_point@))
}

/// A string member that reads as empty when absent.
pub open spec fn text_or_empty(v: JsonModel, key: Seq<char>) -> Option<Seq<char>> {
    match field(v, key) {
        None => Some(Seq::empty()),
        Some(x) => text_of(x),
    }
}

/// A `u8` member that reads as zero when absent.
pub open spec fn u8_or_zero(v: JsonModel, key: Seq<char>) -> Option<u8> {
    match field(v, key) {
        None => Some(0),
        Some(_) => field_u8(v, key),
    }
}

/// A `u64` member that reads as zero when absent.
pub open spec fn u64_or_zero(v: JsonModel, key: Seq<char>) -> Option<u64> {
    match field(v, key) {
        None => Some(0),
        Some(_) => field_u64(v, key),
    }
}

fn read_text_or_empty(v: &JsonValue, key: &str) -> (r: Option<String>)
    ensures
        match text_or_empty(v@, key@) {
            Some(t) => r matches Some(s) && s@ == t,
            None => r is None,
        },
{
    match v.get(key) {
        None => Some(String::new()),
        Some(x) => match x.as_str() {
            Some(t) => Some(String::from_str(t)),
            None => None,
        },
    }
}

fn read_owned_text(v: &JsonValue, key: &str) -> (r: Option<String>)
    ensures
        match field_text(v@, key@) {
            Some(t) => r matches Some(s) && s@ == t,
            None => r is None,
        },
{
    match get_text(v, key) {
        Some(t) => Some(String::from_str(t)),
        None => None,
    }
}

fn read_u8_or_zero(v: &JsonValue, key: &str) -> (r: Option<u8>)
    ensures
        r == u8_or_zero(v@, key@),
{
    match v.get(key) {
        None => Some(0),
        Some(_) => read_u8(v, key),
    }
}

fn read_u64_or_zero(v: &JsonValue, key: &str) -> (r: Option<u64>)
    ensures
        r == u64_or_zero(v@, key@),
{
    match v.get(key) {
        None => Some(0),
        Some(_) => get_u64(v, key),
    }
}

/// Mounts made of (name, mount point) pairs, in order.
fn mounts_from(pairs: Vec<(String, String)>) -> (r: Vec<Mount>)
    ensures
        mount_views(r@) == pairs@.map_values(|p: (String, String)| pair_view(p)),
{
    let mut out: Vec<Mount> = Vec::new();
    let mut i: usize = 0;
    while i < pairs.len()
        invariant
            i <= pairs@.len(),
            mount_views(out@) == pairs@.take(i as int).map_values(|p: (String, String)| pair_view(p)),
        decreases pairs.len() - i,
    {
        let ghost before = out@;
        out.push(Mount { name: pairs[i].0.clone(), mount_point: pairs[i].1.clone() });
        proof {
            assert(mount_views(out@) =~= mount_views(before).push(pair_view(pairs@[i as int])));
            assert(pairs@.take(i + 1) =~= pairs@.take(i as int).push(pairs@[i as int]));
            assert(pairs@.take(i + 1).map_values(|p: (String, String)| pair_view(p)) =~= pairs@.take(
                i as int,
            ).map_values(|p: (String, String)| pair_view(p)).push(pair_view(pairs@[i as int])));
        }
        i = i + 1;
    }
    assert(pairs@.take(pairs@.len() as int) =~= pairs@);
    out
}

/// The environment that a list of (key, value) pairs sets, a later key
/// winning.
fn env_from(pairs: Vec<(String, String)>) -> (r: EnvVars)
    ensures
        r@ == pairs_map(pairs@.map_values(|p: (String, String)| pair_view(p))),
{
    let ghost views = pairs@.map_values(|p: (String, String)| pair_view(p));
    let mut env = EnvVars::new();
    let mut i: usize = 0;
    while i < pairs.len()
        invariant
            i <= pairs@.len(),
            views == pairs@.map_values(|p: (String, String)| pair_view(p)),
            env@ == pairs_map(views.take(i as int)),
        decreases pairs.len() - i,
    {
        proof {
            assert(views.take(i + 1).drop_last() =~= views.take(i as int));
        }
        env.insert(pairs[i].0.clone(), pairs[i].1.clone());
        i = i + 1;
    }
    assert(views.take(pairs@.len() as int) =~= views);
    env
}

// ---------------------------------------------------------------------------
// VM data
// ---------------------------------------------------------------------------

/// What the data of a VM workload (full or light) holds.
pub struct MachineData {
    pub flist: String,
    pub network_name: String,
    pub ip: String,
    pub cpus: u8,
    pub memory_mb: u64,
    pub rootfs_size_mb: u64,
    pub mounts: Vec<Mount>,
    pub env_vars: EnvVars,
    pub entrypoint: String,
    pub corex: bool,
}

/// The data of a VM workload has every member a VM needs, of the right type;
/// mounts, environment and corex may be absent.
pub open spec fn machine_data_decodes(d: JsonModel) -> bool {
    &&& field_text(d, "flist"@) is Some
    &&& field_text(d, "network_name"@) is Some
    &&& field_text(d, "ip"@) is Some
    &&& field_u8(d, "compute_cpu"@) is Some
    &&& field_u64(d, "compute_memory_mb"@) is Some
    &&& field_u64(d, "rootfs_size_mb"@) is Some
    &&& pair_list(d, "mounts"@, "name"@, "mount_point"@, false) is Some
    &&& env_field(d, "env_vars"@) is Some
    &&& field_text(d, "entrypoint"@) is Some
    &&& bool_or_false(d, "corex"@) is Some
}

/// `m` holds the members of the VM data `d`.
pub open spec fn machine_data_from(m: MachineData, d: JsonModel) -> bool {
    &&& m.flist@ == field_text(d, "flist"@).unwrap()
    &&& m.network_name@ == field_text(d, "network_name"@).unwrap()
    &&& m.ip@ == field_text(d, "ip"@).unwrap()
    &&& m.cpus == field_u8(d, "compute_cpu"@).unwrap()
    &&& m.memory_mb == field_u64(d, "compute_memory_mb"@).unwrap()
    &&& m.rootfs_size_mb == field_u64(d, "rootfs_size_mb"@).unwrap()
    &&& mount_views(m.mounts@) == pair_list(d, "mounts"@, "name"@, "mount_point"@, false).unwrap()
    &&& m.env_vars@ == pairs_map(env_field(d, "env_vars"@).unwrap())
    &&& m.entrypoint@ == field_text(d, "entrypoint"@).unwrap()
    &&& m.corex == bool_or_false(d, "corex"@).unwrap()
}

/// The typed data of a VM workload; a codec error when a required member is
/// missing or a member has the wrong type.
pub fn decode_machine_data(data: &JsonValue) -> (r: Result<MachineData, GridError>)
    ensures
        machine_data_decodes(data@) ==> (r matches Ok(m) && machine_data_from(m, data@)),
        !machine_data_decodes(data@) ==> r matches Err(GridError::Codec(_)),
{
    match (
        read_owned_text(data, "flist"),
        read_owned_text(data, "network_name"),
        read_owned_text(data, "ip"),
        read_u8(data, "compute_cpu"),
        get_u64(data, "compute_memory_mb"),
        get_u64(data, "rootfs_size_mb"),
        read_pair_list(data, "mounts", "name", "mount_point", false),
        read_env(data, "env_vars"),
        read_owned_text(data, "entrypoint"),
        read_bool_or_false(data, "corex"),
    ) {
        (
            Some(flist),
            Some(network_name),
            Some(ip),
            Some(cpus),
            Some(memory_mb),
            Some(rootfs_size_mb),
            Some(mounts),
            Some(env),
            Some(entrypoint),
            Some(corex),
        ) => Ok(MachineData {
            flist,
            network_name,
            ip,
            cpus,
            memory_mb,
            rootfs_size_mb,
            mounts: mounts_from(mounts),
            env_vars: env_from(env),
            entrypoint,
            corex,
        }),
        _ => Err(GridError::Codec(String::from_str("vm data does not match the vm schema"))),
    }
}

// ---------------------------------------------------------------------------
// What a node reported
// ---------------------------------------------------------------------------

/// What a node reported about a machine it runs. A light VM has no
/// planetary or yggdrasil address.
pub struct MachineRuntime {
    pub planetary_ip: String,
    pub ygg_ip: String,
    pub mycelium_ip: String,
    pub console_url: String,
}

/// The result data of a machine reads as its addresses: every member that
/// the machine kind reports is absent or a string.
pub open spec fn runtime_decodes(d: JsonModel, light: bool) -> bool {
    &&& (light || text_or_empty(d, "planetary_ip"@) is Some)
    &&& (light || text_or_empty(d, "ygg_ip"@) is Some)
    &&& text_or_empty(d, "mycelium_ip"@) is Some
    &&& text_or_empty(d, "console_url"@) is Some
}

/// What a node reports of a machine under `key`: empty when absent, or when
/// the report does not read as addresses.
pub open spec fn reported_text(result: JsonModel, light: bool, key: Seq<char>) -> Seq<char> {
    if runtime_decodes(result, light) {
        text_or_empty(result, key).unwrap()
    } else {
        Seq::empty()
    }
}

/// The addresses in a machine's result data, each empty when absent; all
/// empty when the data does not read as addresses. A light VM's planetary
/// and yggdrasil addresses are empty.
pub fn decode_machine_runtime(result: &JsonValue, light: bool) -> (r: MachineRuntime)
    ensures
        runtime_decodes(result@, light) ==> {
            &&& r.planetary_ip@ == (if light { Seq::empty() } else { text_or_empty(result@, "planetary_ip"@).unwrap() })
            &&& r.ygg_ip@ == (if light { Seq::empty() } else { text_or_empty(result@, "ygg_ip"@).unwrap() })
            &&& r.mycelium_ip@ == text_or_empty(result@, "mycelium_ip"@).unwrap()
            &&& r.console_url@ == text_or_empty(result@, "console_url"@).unwrap()
        },
        !runtime_decodes(result@, light) ==> r.planetary_ip@.len() == 0 && r.ygg_ip@.len() == 0
            && r.mycelium_ip@.len() == 0 && r.console_url@.len() == 0,
        r.mycelium_ip@ == reported_text(result@, light, "mycelium_ip"@),
        r.console_url@ == reported_text(result@, light, "console_url"@),
        !light ==> r.planetary_ip@ == reported_text(result@, false, "planetary_ip"@) && r.ygg_ip@ == reported_text(result@, false, "ygg_ip"@),
{
    let (planetary, ygg) = if light {
        (Some(String::new()), Some(String::new()))
    } else {
        (read_text_or_empty(result, "planetary_ip"), read_text_or_empty(result, "ygg_ip"))
    };
    match (planetary, ygg, read_text_or_empty(result, "mycelium_ip"), read_text_or_empty(result, "console_url")) {
        (Some(planetary_ip), Some(ygg_ip), Some(mycelium_ip), Some(console_url)) => MachineRuntime {
            planetary_ip,
            ygg_ip,
            mycelium_ip,
            console_url,
        },
        _ => MachineRuntime {
            planetary_ip: String::new(),
            ygg_ip: String::new(),
            mycelium_ip: String::new(),
            console_url: String::new(),
        },
    }
}

/// The planetary address a node reported: the planetary one, else the
/// yggdrasil one.
pub open spec fn planetary_address(rt: MachineRuntime) -> Seq<char> {
    if rt.planetary_ip@.len() > 0 {
        rt.planetary_ip@
    } else {
        rt.ygg_ip@
    }
}

// ---------------------------------------------------------------------------
// Assembled machines
// ---------------------------------------------------------------------------

/// A full VM read back from its workload on `node_id`, from its decoded data,
/// what its node reported, its flist checksum and its public addresses
/// (IPv4, IPv6, and whether it has each).
pub fn vm_from_machine(
    workload: &zos::Workload,
    node_id: u32,
    data: MachineData,
    runtime: MachineRuntime,
    flist_checksum: String,
    public: (String, String, bool, bool),
) -> (r: VM)
    ensures
        r.name@ == workload.name@,
        r.node_id == node_id,
        r.network_name@ == data.network_name@,
        r.description@ == workload.description@,
        r.flist@ == data.flist@,
        r.flist_checksum@ == flist_checksum@,
        r.entrypoint@ == data.entrypoint@,
        r.public_ip == public.2,
        r.public_ip6 == public.3,
        r.planetary == (runtime.planetary_ip@.len() > 0 || runtime.ygg_ip@.len() > 0),
        r.corex == data.corex,
        r.ip@ == data.ip@,
        r.mycelium_ip_seed@.len() == 0,
        r.cpus == data.cpus,
        r.memory_mb == data.memory_mb,
        r.rootfs_size_mb == data.rootfs_size_mb,
        mount_views(r.mounts@) == mount_views(data.mounts@),
        r.zlogs@.len() == 0,
        r.env_vars@ == data.env_vars@,
        r.computed_ip@ == public.0@,
        r.computed_ip6@ == public.1@,
        r.planetary_ip@ == planetary_address(runtime),
        r.mycelium_ip@ == runtime.mycelium_ip@,
        r.console_url@ == runtime.console_url@,
{
    let planetary = runtime.planetary_ip.unicode_len() > 0 || runtime.ygg_ip.unicode_len() > 0;
    let planetary_ip = if runtime.planetary_ip.unicode_len() > 0 {
        runtime.planetary_ip
    } else {
        runtime.ygg_ip
    };
    VM {
        name: workload.name.clone(),
        node_id,
        network_name: data.network_name,
        description: workload.description.clone(),
        flist: data.flist,
        flist_checksum,
        entrypoint: data.entrypoint,
        public_ip: public.2,
        public_ip6: public.3,
        planetary,
        corex: data.corex,
        ip: data.ip,
        mycelium_ip_seed: Vec::new(),
        cpus: data.cpus,
        memory_mb: data.memory_mb,
        rootfs_size_mb: data.rootfs_size_mb,
        mounts: data.mounts,
        zlogs: Vec::new(),
        env_vars: data.env_vars,
        computed_ip: public.0,
        computed_ip6: public.1,
        planetary_ip,
        mycelium_ip: runtime.mycelium_ip,
        console_url: runtime.console_url,
    }
}

/// A light VM read back from its workload on `node_id`, from its decoded
/// data, what its node reported and its flist checksum.
pub fn vm_light_from_machine(
    workload: &zos::Workload,
    node_id: u32,
    data: MachineData,
    runtime: MachineRuntime,
    flist_checksum: String,
) -> (r: VMLight)
    ensures
        r.name@ == workload.name@,
        r.node_id == node_id,
        r.network_name@ == data.network_name@,
        r.description@ == workload.description@,
        r.flist@ == data.flist@,
        r.flist_checksum@ == flist_checksum@,
        r.entrypoint@ == data.entrypoint@,
        r.corex == data.corex,
        r.ip@ == data.ip@,
        r.mycelium_ip_seed@.len() == 0,
        r.cpus == data.cpus,
        r.memory_mb == data.memory_mb,
        r.rootfs_size_mb == data.rootfs_size_mb,
        mount_views(r.mounts@) == mount_views(data.mounts@),
        r.zlogs@.len() == 0,
        r.env_vars@ == data.env_vars@,
        r.mycelium_ip@ == runtime.mycelium_ip@,
        r.console_url@ == runtime.console_url@,
        r.computed_ip@.len() == 0,
        r.computed_ip6@.len() == 0,
{
    VMLight {
        name: workload.name.clone(),
        node_id,
        network_name: data.network_name,
        description: workload.description.clone(),
        flist: data.flist,
        flist_checksum,
        entrypoint: data.entrypoint,
        corex: data.corex,
        ip: data.ip,
        mycelium_ip_seed: Vec::new(),
        cpus: data.cpus,
        memory_mb: data.memory_mb,
        rootfs_size_mb: data.rootfs_size_mb,
        mounts: data.mounts,
        zlogs: Vec::new(),
        env_vars: data.env_vars,
        mycelium_ip: runtime.mycelium_ip,
        console_url: runtime.console_url,
        computed_ip: String::new(),
        computed_ip6: String::new(),
    }
}

// ---------------------------------------------------------------------------
// Kubernetes node data
// ---------------------------------------------------------------------------

/// What the data of a kubernetes VM workload holds. The first network
/// interface's address is kept as the value it is.
pub struct K8sMachineData {
    pub flist: String,
    pub planetary: bool,
    pub mycelium_seed: Vec<u8>,
    pub interface_ip: Option<JsonValue>,
    pub interface_network: String,
    pub cpus: u8,
    pub memory_mb: u64,
    pub rootfs_size_mb: u64,
    pub mounts: Vec<Mount>,
    pub env_vars: EnvVars,
    pub entrypoint: String,
    pub corex: bool,
}

/// The address and network name of a network interface.
pub open spec fn interface_parts(i: JsonModel) -> (Option<JsonModel>, Seq<char>) {
    (
        field(i, "ip"@),
        match field(i, "network"@) {
            Some(JsonModel::Str(t)) => t,
            _ => Seq::empty(),
        },
    )
}

/// The mycelium seed of a machine network: the bytes of the `hex_seed` member
/// of its `mycelium` member, empty when either is absent.
pub open spec fn network_seed(n: JsonModel) -> Seq<u8> {
    match field(n, "mycelium"@) {
        Some(m) => match field(m, "hex_seed"@) {
            Some(h) => workloads::hex_field_bytes(h),
            None => Seq::empty(),
        },
        None => Seq::empty(),
    }
}

/// The `network` member of kubernetes VM data: its planetary flag, mycelium
/// seed, first interface address and first interface network. An absent
/// member reads as none of them; `None` when it does not read.
pub open spec fn k8s_network(d: JsonModel) -> Option<(bool, Seq<u8>, Option<JsonModel>, Seq<char>)> {
    match field(d, "network"@) {
        None => Some((false, Seq::empty(), None, Seq::empty())),
        Some(n) => if n is Object && text_or_empty(n, "public_ip"@) is Some && bool_or_false(n, "planetary"@) is Some {
            let planetary = bool_or_false(n, "planetary"@).unwrap();
            match field(n, "interfaces"@) {
                None => Some((planetary, network_seed(n), None, Seq::empty())),
                Some(JsonModel::Array(items)) => if items.len() > 0 {
                    Some((planetary, network_seed(n), interface_parts(items[0]).0, interface_parts(items[0]).1))
                } else {
                    Some((planetary, network_seed(n), None, Seq::empty()))
                },
                Some(_) => None,
            }
        } else {
            None
        },
    }
}

/// The `compute_capacity` member: cpu count and memory bytes, both required
/// when present; zero when absent.
pub open spec fn k8s_capacity(d: JsonModel) -> Option<(u8, u64)> {
    match field(d, "compute_capacity"@) {
        None => Some((0, 0)),
        Some(c) => match (field_u8(c, "cpu"@), field_u64(c, "memory"@)) {
            (Some(a), Some(b)) => Some((a, b)),
            _ => None,
        },
    }
}

/// The data of a kubernetes VM workload reads: a flist, and every other
/// member absent or of the right type.
pub open spec fn k8s_data_decodes(d: JsonModel) -> bool {
    &&& field_text(d, "flist"@) is Some
    &&& k8s_network(d) is Some
    &&& k8s_capacity(d) is Some
    &&& u8_or_zero(d, "compute_cpu"@) is Some
    &&& u64_or_zero(d, "compute_memory_mb"@) is Some
    &&& u64_or_zero(d, "rootfs_size_mb"@) is Some
    &&& pair_list(d, "mounts"@, "name"@, "mount_point"@, false) is Some
    &&& env_field(d, "env"@) is Some
    &&& text_or_empty(d, "entrypoint"@) is Some
    &&& bool_or_false(d, "corex"@) is Some
}

/// The cpu count of kubernetes VM data: `compute_cpu`, or the capacity's
/// when that is zero.
pub open spec fn k8s_cpus(d: JsonModel) -> u8 {
    if u8_or_zero(d, "compute_cpu"@).unwrap() == 0 {
        k8s_capacity(d).unwrap().0
    } else {
        u8_or_zero(d, "compute_cpu"@).unwrap()
    }
}

/// The memory of kubernetes VM data in MB: `compute_memory_mb`, or when that
/// is zero the capacity's bytes in whole mebibytes.
pub open spec fn k8s_memory_mb(d: JsonModel) -> u64 {
    let m = u64_or_zero(d, "compute_memory_mb"@).unwrap();
    let c = k8s_capacity(d).unwrap().1;
    if m == 0 && c > 0 {
        (c / zos::MEGABYTE) as u64
    } else {
        m
    }
}

/// `m` holds what the kubernetes VM data `d` says.
pub open spec fn k8s_data_from(m: K8sMachineData, d: JsonModel) -> bool {
    let net = k8s_network(d).unwrap();
    &&& m.flist@ == field_text(d, "flist"@).unwrap()
    &&& m.planetary == net.0
    &&& m.mycelium_seed@ == net.1
    &&& match m.interface_ip {
        Some(v) => net.2 == Some(v@),
        None => net.2 is None,
    }
    &&& m.interface_network@ == net.3
    &&& m.cpus == k8s_cpus(d)
    &&& m.memory_mb == k8s_memory_mb(d)
    &&& m.rootfs_size_mb == u64_or_zero(d, "rootfs_size_mb"@).unwrap()
    &&& mount_views(m.mounts@) == pair_list(d, "mounts"@, "name"@, "mount_point"@, false).unwrap()
    &&& m.env_vars@ == pairs_map(env_field(d, "env"@).unwrap())
    &&& m.entrypoint@ == text_or_empty(d, "entrypoint"@).unwrap()
    &&& m.corex == bool_or_false(d, "corex"@).unwrap()
}

fn read_k8s_network(d: &JsonValue) -> (r: Option<(bool, Vec<u8>, Option<JsonValue>, String)>)
    ensures
        match k8s_network(d@) {
            Some(n) => r matches Some(x) && x.0 == n.0 && x.1@ == n.1 && x.3@ == n.3 && match x.2 {
                Some(v) => n.2 == Some(v@),
                None => n.2 is None,
            },
            None => r is None,
        },
{
    let n = match d.get("network") {
        None => return Some((false, Vec::new(), None, String::new())),
        Some(n) => n,
    };
    match n {
        JsonValue::Object(_) => {},
        _ => return None,
    }
    match read_text_or_empty(n, "public_ip") {
        Some(_) => {},
        None => return None,
    }
    let planetary = match read_bool_or_false(n, "planetary") {
        Some(b) => b,
        None => return None,
    };
    let seed = match n.get("mycelium") {
        Some(m) => match m.get("hex_seed") {
            Some(h) => workloads::get_hex_bytes(h),
            None => Vec::new(),
        },
        None => Vec::new(),
    };
    match n.get("interfaces") {
        None => Some((planetary, seed, None, String::new())),
        Some(JsonValue::Array(items)) => {
            if items.len() > 0 {
                proof {
                    lemma_item_models_len(items@);
                }
                let ip = match items[0].get("ip") {
                    Some(v) => Some(clone_json(v)),
                    None => None,
                };
                let network = match items[0].get("network") {
                    Some(JsonValue::String(t)) => t.clone(),
                    _ => String::new(),
                };
                Some((planetary, seed, ip, network))
            } else {
                Some((planetary, seed, None, String::new()))
            }
        },
        Some(_) => None,
    }
}

fn read_k8s_capacity(d: &JsonValue) -> (r: Option<(u8, u64)>)
    ensures
        r == k8s_capacity(d@),
{
    match d.get("compute_capacity") {
        None => Some((0, 0)),
        Some(c) => match (read_u8(c, "cpu"), get_u64(c, "memory")) {
            (Some(a), Some(b)) => Some((a, b)),
            _ => None,
        },
    }
}

/// The typed data of a kubernetes VM workload; a validation error naming the
/// workload when it does not read.
pub fn decode_k8s_machine_data(workload: &zos::Workload) -> (r: Result<K8sMachineData, GridError>)
    ensures
        k8s_data_decodes(workload.data@) ==> (r matches Ok(m) && k8s_data_from(m, workload.data@)),
        !k8s_data_decodes(workload.data@) ==> (r matches Err(e) && is_validation(
            e,
            "failed to parse k8s workload "@ + workload.name@ + ": the data does not match the kubernetes machine schema"@,
        )),
{
    let d = &workload.data;
    match (
        read_owned_text(d, "flist"),
        read_k8s_network(d),
        read_k8s_capacity(d),
        read_u8_or_zero(d, "compute_cpu"),
        read_u64_or_zero(d, "compute_memory_mb"),
        read_u64_or_zero(d, "rootfs_size_mb"),
        read_pair_list(d, "mounts", "name", "mount_point", false),
        read_env(d, "env"),
        read_text_or_empty(d, "entrypoint"),
        read_bool_or_false(d, "corex"),
    ) {
        (
            Some(flist),
            Some((planetary, mycelium_seed, interface_ip, interface_network)),
            Some((capacity_cpu, capacity_memory)),
            Some(compute_cpu),
            Some(compute_memory_mb),
            Some(rootfs_size_mb),
            Some(mounts),
            Some(env),
            Some(entrypoint),
            Some(corex),
        ) => {
            let cpus = if compute_cpu == 0 {
                capacity_cpu
            } else {
                compute_cpu
            };
            let memory_mb = if compute_memory_mb == 0 && capacity_memory > 0 {
                capacity_memory / zos::MEGABYTE
            } else {
                compute_memory_mb
            };
            Ok(K8sMachineData {
                flist,
                planetary,
                mycelium_seed,
                interface_ip,
                interface_network,
                cpus,
                memory_mb,
                rootfs_size_mb,
                mounts: mounts_from(mounts),
                env_vars: env_from(env),
                entrypoint,
                corex,
            })
        },
        _ => {
            let mut msg = String::from_str("failed to parse k8s workload ");
            msg.append(workload.name.as_str());
            msg.append(": the data does not match the kubernetes machine schema");
            Err(GridError::validation(msg.as_str()))
        },
    }
}

// ---------------------------------------------------------------------------
// Kubernetes nodes and clusters
// ---------------------------------------------------------------------------

/// A kubernetes node read back from its workload on `node_id`, from its
/// decoded data, what its node reported, its first interface's address, its
/// flist checksum, its disk size and its public addresses (empty when it has
/// none).
pub fn k8s_node_from_machine(
    workload: &zos::Workload,
    node_id: u32,
    disk_size: u64,
    computed_ip: &str,
    computed_ip6: &str,
    data: K8sMachineData,
    runtime: MachineRuntime,
    interface_ip: String,
    flist_checksum: String,
) -> (r: K8sNode)
    ensures
        r.disk_size_gb == disk_size,
        r.vm.name@ == workload.name@,
        r.vm.node_id == node_id,
        r.vm.network_name@ == data.interface_network@,
        r.vm.description@ == workload.description@,
        r.vm.flist@ == data.flist@,
        r.vm.flist_checksum@ == flist_checksum@,
        r.vm.entrypoint@ == data.entrypoint@,
        r.vm.public_ip == (computed_ip@.len() > 0),
        r.vm.public_ip6 == (computed_ip6@.len() > 0),
        r.vm.planetary == (runtime.planetary_ip@.len() > 0 || runtime.ygg_ip@.len() > 0 || data.planetary),
        r.vm.corex == data.corex,
        r.vm.ip@ == interface_ip@,
        r.vm.mycelium_ip_seed@ == data.mycelium_seed@,
        r.vm.cpus == data.cpus,
        r.vm.memory_mb == data.memory_mb,
        r.vm.rootfs_size_mb == data.rootfs_size_mb,
        mount_views(r.vm.mounts@) == mount_views(data.mounts@),
        r.vm.zlogs@.len() == 0,
        r.vm.env_vars@ == data.env_vars@,
        r.vm.computed_ip@ == computed_ip@,
        r.vm.computed_ip6@ == computed_ip6@,
        r.vm.planetary_ip@ == planetary_address(runtime),
        r.vm.mycelium_ip@ == runtime.mycelium_ip@,
        r.vm.console_url@ == runtime.console_url@,
{
    let planetary = runtime.planetary_ip.unicode_len() > 0 || runtime.ygg_ip.unicode_len() > 0 || data.planetary;
    let planetary_ip = if runtime.planetary_ip.unicode_len() > 0 {
        runtime.planetary_ip
    } else {
        runtime.ygg_ip
    };
    K8sNode {
        vm: VM {
            name: workload.name.clone(),
            node_id,
            network_name: data.interface_network,
            description: workload.description.clone(),
            flist: data.flist,
            flist_checksum,
            entrypoint: data.entrypoint,
            public_ip: computed_ip.unicode_len() > 0,
            public_ip6: computed_ip6.unicode_len() > 0,
            planetary,
            corex: data.corex,
            ip: interface_ip,
            mycelium_ip_seed: data.mycelium_seed,
            cpus: data.cpus,
            memory_mb: data.memory_mb,
            rootfs_size_mb: data.rootfs_size_mb,
            mounts: data.mounts,
            zlogs: Vec::new(),
            env_vars: data.env_vars,
            computed_ip: String::from_str(computed_ip),
            computed_ip6: String::from_str(computed_ip6),
            planetary_ip,
            mycelium_ip: runtime.mycelium_ip,
            console_url: runtime.console_url,
        },
        disk_size_gb: disk_size,
    }
}

/// The last master among nodes read in order, each paired with the project
/// name of its deployment when it is a master.
pub open spec fn last_master(s: Seq<(K8sNode, Option<String>)>) -> Option<(K8sNode, Option<String>)>
    decreases s.len(),
{
    if s.len() == 0 {
        None
    } else if s.last().1 is Some {
        Some(s.last())
    } else {
        last_master(s.drop_last())
    }
}

/// The workers among nodes read in order: those that are no master.
pub open spec fn workers_of(s: Seq<(K8sNode, Option<String>)>) -> Seq<K8sNode>
    decreases s.len(),
{
    if s.len() == 0 {
        Seq::empty()
    } else if s.last().1 is Some {
        workers_of(s.drop_last())
    } else {
        workers_of(s.drop_last()).push(s.last().0)
    }
}

/// A value of an environment, empty when absent.
pub open spec fn env_value(env: Map<Seq<char>, Seq<char>>, key: Seq<char>) -> Seq<char> {
    if env.contains_key(key) {
        env[key]
    } else {
        Seq::empty()
    }
}

fn env_value_of(env: &EnvVars, key: &str) -> (r: String)
    ensures
        r@ == env_value(env@, key@),
{
    match env.get(key) {
        Some(v) => v.clone(),
        None => String::new(),
    }
}

/// A kubernetes cluster made of its nodes in the order they were read, each
/// paired with the project name of its deployment when it is a master. The
/// last master leads: the cluster's network, flist, entry point, ssh key
/// (`SSH_KEY`), token (`K3S_TOKEN`) and solution type come from it; the
/// other nodes that are no master are its workers. Without a master the
/// cluster is not found. Its node IP ranges are left empty.
pub fn assemble_k8s_cluster(
    nodes: Vec<(K8sNode, Option<String>)>,
    node_deployment_id: HashMap<u32, u64>,
    deployment_name: &str,
) -> (r: Result<K8sCluster, GridError>)
    ensures
        last_master(nodes@) is None ==> (r matches Err(e) && is_not_found(
            e,
            "failed to get master node for k8s cluster "@ + deployment_name@,
        )),
        last_master(nodes@) matches Some(m) ==> (r matches Ok(c) && {
            &&& c.master == Some(m.0)
            &&& c.solution_type@ == m.1.unwrap()@
            &&& c.workers@ == workers_of(nodes@)
            &&& c.network_name@ == m.0.vm.network_name@
            &&& c.flist@ == m.0.vm.flist@
            &&& c.flist_checksum@ == m.0.vm.flist_checksum@
            &&& c.entry_point@ == m.0.vm.entrypoint@
            &&& c.ssh_key@ == env_value(m.0.vm.env_vars@, "SSH_KEY"@)
            &&& c.token@ == env_value(m.0.vm.env_vars@, "K3S_TOKEN"@)
            &&& c.nodes_ip_range@ == Map::<u32, String>::empty()
            &&& c.node_deployment_id@ == node_deployment_id@
        }),
{
    let ghost all = nodes@;
    let mut rest = nodes;
    let mut master: Option<(K8sNode, String)> = None;
    let mut workers: Vec<K8sNode> = Vec::new();
    let ghost mut taken: int = 0;
    while rest.len() > 0
        invariant
            0 <= taken <= all.len(),
            rest@ == all.skip(taken),
            workers@ == workers_of(all.take(taken)),
            match last_master(all.take(taken)) {
                Some(p) => master == Some((p.0, p.1.unwrap())),
                None => master is None,
            },
        decreases rest.len(),
    {
        let (node, project) = rest.remove(0);
        proof {
            assert(all.take(taken + 1).drop_last() =~= all.take(taken));
            assert(all.skip(taken + 1) =~= all.skip(taken).drop_first());
            taken = taken + 1;
        }
        match project {
            Some(p) => {
                master = Some((node, p));
            },
            None => {
                workers.push(node);
            },
        }
    }
    proof {
        assert(all.take(taken) =~= all);
    }
    match master {
        None => {
            let mut msg = String::from_str("failed to get master node for k8s cluster ");
            msg.append(deployment_name);
            Err(GridError::not_found(msg.as_str()))
        },
        Some((m, project)) => {
            let network_name = m.vm.network_name.clone();
            let flist = m.vm.flist.clone();
            let flist_checksum = m.vm.flist_checksum.clone();
            let entry_point = m.vm.entrypoint.clone();
            let ssh_key = env_value_of(&m.vm.env_vars, "SSH_KEY");
            let token = env_value_of(&m.vm.env_vars, "K3S_TOKEN");
            Ok(K8sCluster {
                master: Some(m),
                workers,
                token,
                network_name,
                flist,
                flist_checksum,
                entry_point,
                solution_type: project,
                ssh_key,
                nodes_ip_range: HashMap::new(),
                node_deployment_id,
            })
        },
    }
}

/// The size in GB of a disk of a kubernetes deployment: its `size_gb`, else
/// its `size` bytes in whole gibibytes, else zero.
pub open spec fn zmount_size(d: JsonModel) -> u64 {
    match field_u64(d, "size_gb"@) {
        Some(n) => n,
        None => match field_u64(d, "size"@) {
            Some(b) => (b / zos::GIGABYTE) as u64,
            None => 0,
        },
    }
}

/// The size in GB of a disk workload's data (see [`zmount_size`]).
pub fn zmount_size_gb(data: &JsonValue) -> (r: u64)
    ensures
        r == zmount_size(data@),
{
    match get_u64(data, "size_gb") {
        Some(n) => n,
        None => match get_u64(data, "size") {
            Some(b) => b / zos::GIGABYTE,
            None => 0,
        },
    }
}

// ---------------------------------------------------------------------------
// Reading back what was deployed
// ---------------------------------------------------------------------------

proof fn lemma_pairs_of_mounts(ms: Seq<Mount>)
    ensures
        pairs_all(workloads::mounts_model(ms), "name"@, "mount_point"@) == Some(
            mount_views(ms),
        ),
    decreases ms.len(),
{
    reveal_strlit("name");
    reveal_strlit("mount_point");
    if ms.len() > 0 {
        lemma_pairs_of_mounts(ms.drop_last());
        assert(workloads::mounts_model(ms).drop_last() =~= workloads::mounts_model(ms.drop_last()));
        assert(mount_views(ms) =~= mount_views(ms.drop_last()).push((ms.last().name@, ms.last().mount_point@)));
        let o = workloads::mounts_model(ms).last();
        match o {
            JsonModel::Object(m) => {
                assert(key_index(m, "name"@, 0));
                lemma_member_at(m, "name"@, 0);
                assert(m[0].0.len() != "mount_point"@.len());
                assert(key_index(m, "mount_point"@, 1));
                lemma_member_at(m, "mount_point"@, 1);
            },
            _ => {},
        }
    }
}

proof fn lemma_env_of_entries(es: Seq<(String, String)>)
    ensures
        env_all(es.map_values(|e: (String, String)| (e.0@, JsonModel::Str(e.1@)))) == Some(
            es.map_values(|e: (String, String)| pair_view(e)),
        ),
        pairs_map(es.map_values(|e: (String, String)| pair_view(e))) == entries_map(es),
    decreases es.len(),
{
    if es.len() > 0 {
        lemma_env_of_entries(es.drop_last());
        assert(es.map_values(|e: (String, String)| (e.0@, JsonModel::Str(e.1@))).drop_last() =~= es.drop_last().map_values(
            |e: (String, String)| (e.0@, JsonModel::Str(e.1@)),
        ));
        assert(es.map_values(|e: (String, String)| pair_view(e)).drop_last() =~= es.drop_last().map_values(
            |e: (String, String)| pair_view(e),
        ));
        assert(es.map_values(|e: (String, String)| pair_view(e)) =~= es.drop_last().map_values(
            |e: (String, String)| pair_view(e),
        ).push(pair_view(es.last())));
    }
}

/// Reading back the data a VM (full or light) was deployed with gives back
/// what it was deployed with: the data decodes, and any VM data read from it
/// holds the same flist, network, address, capacity, root size, mounts,
/// environment, entry point and corex flag.
pub proof fn law_machine_data_reads_back(
    flist: Seq<char>,
    network_name: Seq<char>,
    ip: Seq<char>,
    cpus: u8,
    memory_mb: u64,
    rootfs_size_mb: u64,
    mounts: Seq<Mount>,
    env: EnvVars,
    entrypoint: Seq<char>,
    corex: bool,
)
    ensures
        ({
            let d = workloads::machine_data(
                flist,
                network_name,
                ip,
                cpus,
                memory_mb,
                rootfs_size_mb,
                mounts,
                env,
                entrypoint,
                corex,
            );
            &&& machine_data_decodes(d)
            &&& forall|m: MachineData| #[trigger] machine_data_from(m, d) ==> {
                &&& m.flist@ == flist
                &&& m.network_name@ == network_name
                &&& m.ip@ == ip
                &&& m.cpus == cpus
                &&& m.memory_mb == memory_mb
                &&& m.rootfs_size_mb == rootfs_size_mb
                &&& mount_views(m.mounts@) == mount_views(mounts)
                &&& m.env_vars@ == env@
                &&& m.entrypoint@ == entrypoint
                &&& m.corex == corex
            }
        }),
{
    let d = workloads::machine_data(flist, network_name, ip, cpus, memory_mb, rootfs_size_mb, mounts, env, entrypoint, corex);
    reveal_strlit("flist");
    reveal_strlit("network_name");
    reveal_strlit("ip");
    reveal_strlit("compute_cpu");
    reveal_strlit("compute_memory_mb");
    reveal_strlit("rootfs_size_mb");
    reveal_strlit("mounts");
    reveal_strlit("env_vars");
    reveal_strlit("entrypoint");
    reveal_strlit("corex");
    match d {
        JsonModel::Object(ms) => {
            assert(ms[0].0 =~= "flist"@);
            assert(ms[1].0 =~= "network_name"@);
            assert(ms[2].0 =~= "ip"@);
            assert(ms[3].0 =~= "compute_cpu"@);
            assert(ms[4].0 =~= "compute_memory_mb"@);
            assert(ms[5].0 =~= "rootfs_size_mb"@);
            assert(ms[6].0 =~= "mounts"@);
            assert(ms[7].0 =~= "env_vars"@);
            assert(ms[8].0 =~= "entrypoint"@);
            assert(ms[9].0 =~= "corex"@);
            assert(key_index(ms, "flist"@, 0));
            lemma_member_at(ms, "flist"@, 0);
            assert(key_index(ms, "network_name"@, 1));
            lemma_member_at(ms, "network_name"@, 1);
            assert(key_index(ms, "ip"@, 2));
            lemma_member_at(ms, "ip"@, 2);
            assert(key_index(ms, "compute_cpu"@, 3));
            lemma_member_at(ms, "compute_cpu"@, 3);
            assert(key_index(ms, "compute_memory_mb"@, 4));
            lemma_member_at(ms, "compute_memory_mb"@, 4);
            assert(key_index(ms, "rootfs_size_mb"@, 5));
            lemma_member_at(ms, "rootfs_size_mb"@, 5);
            assert(key_index(ms, "mounts"@, 6));
            lemma_member_at(ms, "mounts"@, 6);
            assert(key_index(ms, "env_vars"@, 7));
            lemma_member_at(ms, "env_vars"@, 7);
            assert(key_index(ms, "entrypoint"@, 8));
            lemma_member_at(ms, "entrypoint"@, 8);
            assert("flist"@[0] != "corex"@[0]);
            assert(key_index(ms, "corex"@, 9));
            lemma_member_at(ms, "corex"@, 9);
        },
        _ => {},
    }
    lemma_pairs_of_mounts(mounts);
    lemma_env_of_entries(env.entry_seq());
    env.lemma_entries();
    assert(workloads::env_model(env) == env.entry_seq().map_values(
        |e: (String, String)| (e.0@, JsonModel::Str(e.1@)),
    ));
}

// ---------------------------------------------------------------------------
// Reading a whole deployment back
// ---------------------------------------------------------------------------

/// What reading back one workload of a deployment still needs from the
/// caller: nothing, or the full or light VM that the workload runs (whose
/// flist checksum is fetched elsewhere).
#[derive(Debug, PartialEq, Eq, Structural)]
pub enum ReadBackStep {
    Done,
    Vm,
    VmLight,
}

/// A deployment read back from a node, before its workloads: name and
/// project from its metadata, its contract as the node's, nothing else.
/// Metadata that does not read is a codec error (see
/// [`workloads::parse_deployment_data`]).
pub fn read_back_start(deployment: &zos::Deployment, node_id: u32) -> (r: Result<Deployment, GridError>)
    ensures
        match json_parse(deployment.metadata@) {
            Ok(v) => match workloads::deployment_data_of(v) {
                Some(d) => r matches Ok(x) && {
                    &&& x.name@ == d.2
                    &&& x.node_id == node_id
                    &&& x.solution_type@ == d.3
                    &&& x.solution_provider is None
                    &&& x.network_name@.len() == 0
                    &&& x.disks@.len() == 0 && x.zdbs@.len() == 0 && x.vms@.len() == 0
                    &&& x.vms_light@.len() == 0 && x.qsfs@.len() == 0 && x.volumes@.len() == 0
                    &&& x.node_deployment_id@ == Map::<u32, u64>::empty().insert(node_id, deployment.contract_id)
                    &&& x.contract_id == deployment.contract_id
                    &&& x.ip_range@.len() == 0
                },
                None => r matches Err(GridError::Codec(_)),
            },
            Err(e) => r matches Err(GridError::Codec(m)) && m@ == e,
        },
{
    let metadata = match workloads::parse_deployment_data(deployment.metadata.as_str()) {
        Ok(m) => m,
        Err(e) => return Err(e),
    };
    proof {
        reveal_strlit("");
    }
    let mut output = Deployment::new(
        metadata.name.as_str(),
        node_id,
        metadata.project_name.as_str(),
        None,
        "",
        Vec::new(),
        Vec::new(),
        Vec::new(),
        Vec::new(),
        Vec::new(),
        Vec::new(),
    );
    output.contract_id = deployment.contract_id;
    output.node_deployment_id.insert(node_id, deployment.contract_id);
    Ok(output)
}

/// `b` is `a` with nothing but its workload lists and network name changed.
pub open spec fn same_deployment_frame(a: Deployment, b: Deployment) -> bool {
    &&& b.name == a.name
    &&& b.node_id == a.node_id
    &&& b.solution_type == a.solution_type
    &&& b.solution_provider == a.solution_provider
    &&& b.node_deployment_id == a.node_deployment_id
    &&& b.contract_id == a.contract_id
    &&& b.ip_range == a.ip_range
}

/// `b` is `a` with nothing changed but those of its disks, volumes, zdbs and
/// qsfs lists whose flag is set.
pub open spec fn lists_kept(a: Deployment, b: Deployment, disks: bool, volumes: bool, zdbs: bool, qsfs: bool) -> bool {
    &&& same_deployment_frame(a, b)
    &&& b.network_name == a.network_name
    &&& b.vms == a.vms
    &&& b.vms_light == a.vms_light
    &&& (!disks ==> b.disks == a.disks)
    &&& (!volumes ==> b.volumes == a.volumes)
    &&& (!zdbs ==> b.zdbs == a.zdbs)
    &&& (!qsfs ==> b.qsfs == a.qsfs)
}

/// The size a disk or volume workload states, zero when absent.
pub open spec fn stated_size(w: zos::WorkloadView) -> u64 {
    match field_u64(w.data, "size_gb"@) {
        Some(n) => n,
        None => 0,
    }
}

/// Reads back one workload into `output`: a disk, volume, zdb or qsfs is
/// appended to its list; a full or light VM is left to the caller, who
/// fetches its flist checksum and then hands it to [`read_back_vm`] or
/// [`read_back_vm_light`]; other workloads are skipped. Qsfs data that does
/// not read is a codec error.
pub fn read_back_workload(output: &mut Deployment, wl: &zos::Workload) -> (r: Result<ReadBackStep, GridError>)
    ensures
        wl.workload_type@ == zos::ZMOUNT_TYPE@ ==> (r == Ok::<ReadBackStep, GridError>(ReadBackStep::Done) && {
            &&& lists_kept(*old(output), *final(output), true, false, false, false)
            &&& final(output).disks@.len() == old(output).disks@.len() + 1
            &&& final(output).disks@.drop_last() == old(output).disks@
            &&& final(output).disks@.last().name@ == wl.name@
            &&& final(output).disks@.last().description@ == wl.description@
            &&& final(output).disks@.last().size_gb == stated_size(wl@)
        }),
        wl.workload_type@ != zos::ZMOUNT_TYPE@ && wl.workload_type@ == zos::VOLUME_TYPE@ ==> (r
            == Ok::<ReadBackStep, GridError>(ReadBackStep::Done) && {
            &&& lists_kept(*old(output), *final(output), false, true, false, false)
            &&& final(output).volumes@.len() == old(output).volumes@.len() + 1
            &&& final(output).volumes@.drop_last() == old(output).volumes@
            &&& final(output).volumes@.last().name@ == wl.name@
            &&& final(output).volumes@.last().description@ == wl.description@
            &&& final(output).volumes@.last().size_gb == stated_size(wl@)
        }),
        wl.workload_type@ != zos::ZMOUNT_TYPE@ && wl.workload_type@ != zos::VOLUME_TYPE@
            && wl.workload_type@ == zos::ZDB_TYPE@ ==> (r == Ok::<ReadBackStep, GridError>(ReadBackStep::Done) && {
            &&& lists_kept(*old(output), *final(output), false, false, true, false)
            &&& final(output).zdbs@.len() == old(output).zdbs@.len() + 1
            &&& final(output).zdbs@.drop_last() == old(output).zdbs@
            &&& final(output).zdbs@.last().name@ == wl.name@
            &&& final(output).zdbs@.last().description@ == wl.description@
            &&& final(output).zdbs@.last().size_gb == stated_size(wl@)
            &&& final(output).zdbs@.last().mode@ == match field_text(wl.data@, "mode"@) {
                Some(t) => t,
                None => "user"@,
            }
            &&& final(output).zdbs@.last().public == match field_bool(wl.data@, "public"@) {
                Some(b) => b,
                None => false,
            }
        }),
        wl.workload_type@ != zos::ZMOUNT_TYPE@ && wl.workload_type@ != zos::VOLUME_TYPE@
            && wl.workload_type@ != zos::ZDB_TYPE@ && wl.workload_type@ == zos::ZMACHINE_TYPE@ ==> (r
            == Ok::<ReadBackStep, GridError>(ReadBackStep::Vm) && *final(output) == *old(output)),
        wl.workload_type@ != zos::ZMOUNT_TYPE@ && wl.workload_type@ != zos::VOLUME_TYPE@
            && wl.workload_type@ != zos::ZDB_TYPE@ && wl.workload_type@ != zos::ZMACHINE_TYPE@
            && wl.workload_type@ == zos::ZMACHINE_LIGHT_TYPE@ ==> (r == Ok::<ReadBackStep, GridError>(
            ReadBackStep::VmLight,
        ) && *final(output) == *old(output)),
        wl.workload_type@ != zos::ZMOUNT_TYPE@ && wl.workload_type@ != zos::VOLUME_TYPE@
            && wl.workload_type@ != zos::ZDB_TYPE@ && wl.workload_type@ != zos::ZMACHINE_TYPE@
            && wl.workload_type@ != zos::ZMACHINE_LIGHT_TYPE@ && wl.workload_type@
            == zos::QUANTUM_SAFE_FS_TYPE@ ==> {
            &&& workloads::qsfs_decodes(wl.data@) ==> (r == Ok::<ReadBackStep, GridError>(ReadBackStep::Done) && {
                &&& lists_kept(*old(output), *final(output), false, false, false, true)
                &&& final(output).qsfs@.len() == old(output).qsfs@.len() + 1
                &&& final(output).qsfs@.drop_last() == old(output).qsfs@
                &&& workloads::qsfs_from(final(output).qsfs@.last(), wl.data@)
            })
            &&& !workloads::qsfs_decodes(wl.data@) ==> r matches Err(GridError::Codec(_))
        },
        wl.workload_type@ != zos::ZMOUNT_TYPE@ && wl.workload_type@ != zos::VOLUME_TYPE@
            && wl.workload_type@ != zos::ZDB_TYPE@ && wl.workload_type@ != zos::ZMACHINE_TYPE@
            && wl.workload_type@ != zos::ZMACHINE_LIGHT_TYPE@ && wl.workload_type@
            != zos::QUANTUM_SAFE_FS_TYPE@ ==> (r == Ok::<ReadBackStep, GridError>(ReadBackStep::Done)
            && *final(output) == *old(output)),
{
    let t = wl.workload_type.as_str();
    if str_eq(t, zos::ZMOUNT_TYPE) {
        let disk = workloads::new_disk_from_workload(wl)?;
        output.disks.push(disk);
        Ok(ReadBackStep::Done)
    } else if str_eq(t, zos::VOLUME_TYPE) {
        let volume = workloads::new_volume_from_workload(wl)?;
        output.volumes.push(volume);
        Ok(ReadBackStep::Done)
    } else if str_eq(t, zos::ZDB_TYPE) {
        let zdb = workloads::new_zdb_from_workload(wl)?;
        output.zdbs.push(zdb);
        Ok(ReadBackStep::Done)
    } else if str_eq(t, zos::ZMACHINE_TYPE) {
        Ok(ReadBackStep::Vm)
    } else if str_eq(t, zos::ZMACHINE_LIGHT_TYPE) {
        Ok(ReadBackStep::VmLight)
    } else if str_eq(t, zos::QUANTUM_SAFE_FS_TYPE) {
        let q = workloads::new_qsfs_from_workload(wl)?;
        output.qsfs.push(q);
        Ok(ReadBackStep::Done)
    } else {
        Ok(ReadBackStep::Done)
    }
}

/// Appends a full VM read back from a deployment on `node_id`, under the
/// name of its workload; the deployment's network becomes the VM's.
pub fn read_back_vm(output: &mut Deployment, vm: VM, node_id: u32, name: &str)
    ensures
        same_deployment_frame(*old(output), *final(output)),
        final(output).network_name@ == vm.network_name@,
        final(output).vms@.len() == old(output).vms@.len() + 1,
        final(output).vms@.drop_last() == old(output).vms@,
        final(output).vms@.last() == (VM { node_id, name: final(output).vms@.last().name, ..vm }),
        final(output).vms@.last().name@ == name@,
        final(output).disks == old(output).disks && final(output).volumes == old(output).volumes,
        final(output).zdbs == old(output).zdbs && final(output).qsfs == old(output).qsfs,
        final(output).vms_light == old(output).vms_light,
{
    let mut vm = vm;
    vm.node_id = node_id;
    vm.name = String::from_str(name);
    output.network_name = vm.network_name.clone();
    output.vms.push(vm);
}

/// Appends a light VM read back from a deployment on `node_id`, under the
/// name of its workload; the deployment's network becomes the VM's.
pub fn read_back_vm_light(output: &mut Deployment, vm: VMLight, node_id: u32, name: &str)
    ensures
        same_deployment_frame(*old(output), *final(output)),
        final(output).network_name@ == vm.network_name@,
        final(output).vms_light@.len() == old(output).vms_light@.len() + 1,
        final(output).vms_light@.drop_last() == old(output).vms_light@,
        final(output).vms_light@.last() == (VMLight {
            node_id,
            name: final(output).vms_light@.last().name,
            ..vm
        }),
        final(output).vms_light@.last().name@ == name@,
        final(output).disks == old(output).disks && final(output).volumes == old(output).volumes,
        final(output).zdbs == old(output).zdbs && final(output).qsfs == old(output).qsfs,
        final(output).vms == old(output).vms,
{
    let mut vm = vm;
    vm.node_id = node_id;
    vm.name = String::from_str(name);
    output.network_name = vm.network_name.clone();
    output.vms_light.push(vm);
}

/// A disk read back from the workload it was deployed as keeps its name,
/// description and size; so does a volume.
pub proof fn law_disks_and_volumes_read_back(d: Disk, v: Volume)
    ensures
        workloads::disk_workload(d).workload_type == zos::ZMOUNT_TYPE@,
        workloads::disk_workload(d).name == d.name@,
        workloads::disk_workload(d).description == d.description@,
        stated_size(workloads::disk_workload(d)) == d.size_gb,
        workloads::volume_workload(v).workload_type == zos::VOLUME_TYPE@,
        workloads::volume_workload(v).name == v.name@,
        workloads::volume_workload(v).description == v.description@,
        stated_size(workloads::volume_workload(v)) == v.size_gb,
{
    reveal_strlit("size_gb");
    let ms = seq![("size_gb"@, workloads::num(d.size_gb))];
    assert(key_index(ms, "size_gb"@, 0));
    lemma_member_at(ms, "size_gb"@, 0);
    let mv = seq![("size_gb"@, workloads::num(v.size_gb))];
    assert(key_index(mv, "size_gb"@, 0));
    lemma_member_at(mv, "size_gb"@, 0);
}

/// A zdb read back from the workload it was deployed as keeps its name,
/// description, size, mode and public flag (its password is not read
/// back).
pub proof fn law_zdb_reads_back(z: ZDB)
    ensures
        ({
            let w = workloads::zdb_workload(z);
            &&& w.workload_type == zos::ZDB_TYPE@
            &&& w.name == z.name@
            &&& w.description == z.description@
            &&& stated_size(w) == z.size_gb
            &&& field_text(w.data, "mode"@) == Some(z.mode@)
            &&& field_bool(w.data, "public"@) == Some(z.public)
        }),
{
    match workloads::zdb_data(z) {
        JsonModel::Object(ms) => {
            reveal_strlit("size_gb");
            reveal_strlit("mode");
            reveal_strlit("password");
            reveal_strlit("public");
            assert(ms[0].0 =~= "size_gb"@);
            assert(ms[1].0 =~= "mode"@);
            assert(ms[2].0 =~= "password"@);
            assert(ms[3].0 =~= "public"@);
            assert(key_index(ms, "size_gb"@, 0));
            lemma_member_at(ms, "size_gb"@, 0);
            assert(key_index(ms, "mode"@, 1));
            lemma_member_at(ms, "mode"@, 1);
            assert(key_index(ms, "password"@, 2));
            lemma_member_at(ms, "password"@, 2);
            assert(key_index(ms, "public"@, 3));
            lemma_member_at(ms, "public"@, 3);
        },
        _ => {},
    }
}

/// A qsfs read back from the workload it was deployed as is the qsfs it was
/// deployed as: the data reads, and whatever reads from it holds the same
/// members.
pub proof fn law_qsfs_reads_back(q: QSFS)
    ensures
        workloads::qsfs_workload(q).workload_type == zos::QUANTUM_SAFE_FS_TYPE@,
        workloads::qsfs_decodes(workloads::qsfs_data(q)),
        forall|r: QSFS| #[trigger] workloads::qsfs_from(r, workloads::qsfs_data(q)) ==> {
            &&& r.name@ == q.name@
            &&& r.description@ == q.description@
            &&& r.cache == q.cache
            &&& r.minimal_shards == q.minimal_shards
            &&& r.expected_shards == q.expected_shards
            &&& r.redundant_groups == q.redundant_groups
            &&& r.redundant_nodes == q.redundant_nodes
            &&& r.max_zdb_data_dir_size == q.max_zdb_data_dir_size
            &&& r.encryption_algorithm@ == q.encryption_algorithm@
            &&& r.encryption_key@ == q.encryption_key@
            &&& r.compression_algorithm@ == q.compression_algorithm@
            &&& r.metadata@ == q.metadata@
            &&& r.groups@ == q.groups@
            &&& r.metrics_endpoint@ == q.metrics_endpoint@
        },
{
    match workloads::qsfs_data(q) {
        JsonModel::Object(ms) => {
            reveal_strlit("name");
            reveal_strlit("description");
            reveal_strlit("cache");
            reveal_strlit("minimal_shards");
            reveal_strlit("expected_shards");
            reveal_strlit("redundant_groups");
            reveal_strlit("redundant_nodes");
            reveal_strlit("max_zdb_data_dir_size");
            reveal_strlit("encryption_algorithm");
            reveal_strlit("encryption_key");
            reveal_strlit("compression_algorithm");
            reveal_strlit("metadata");
            reveal_strlit("groups");
            reveal_strlit("metrics_endpoint");
            assert(ms[0].0 =~= "name"@);
            assert(ms[1].0 =~= "description"@);
            assert(ms[2].0 =~= "cache"@);
            assert(ms[3].0 =~= "minimal_shards"@);
            assert(ms[4].0 =~= "expected_shards"@);
            assert(ms[5].0 =~= "redundant_groups"@);
            assert(ms[6].0 =~= "redundant_nodes"@);
            assert(ms[7].0 =~= "max_zdb_data_dir_size"@);
            assert(ms[8].0 =~= "encryption_algorithm"@);
            assert(ms[9].0 =~= "encryption_key"@);
            assert(ms[10].0 =~= "compression_algorithm"@);
            assert(ms[11].0 =~= "metadata"@);
            assert(ms[12].0 =~= "groups"@);
            assert(ms[13].0 =~= "metrics_endpoint"@);
            assert("expected_shards"@[0] != "redundant_nodes"@[0]);
            assert("minimal_shards"@[0] != "encryption_key"@[0]);
            assert("max_zdb_data_dir_size"@[0] != "compression_algorithm"@[0]);
            assert("redundant_groups"@[0] != "metrics_endpoint"@[0]);
            assert(key_index(ms, "name"@, 0));
            lemma_member_at(ms, "name"@, 0);
            assert(key_index(ms, "description"@, 1));
            lemma_member_at(ms, "description"@, 1);
            assert(key_index(ms, "cache"@, 2));
            lemma_member_at(ms, "cache"@, 2);
            assert(key_index(ms, "minimal_shards"@, 3));
            lemma_member_at(ms, "minimal_shards"@, 3);
            assert(key_index(ms, "expected_shards"@, 4));
            lemma_member_at(ms, "expected_shards"@, 4);
            assert(key_index(ms, "redundant_groups"@, 5));
            lemma_member_at(ms, "redundant_groups"@, 5);
            assert(key_index(ms, "redundant_nodes"@, 6));
            lemma_member_at(ms, "redundant_nodes"@, 6);
            assert(key_index(ms, "max_zdb_data_dir_size"@, 7));
            lemma_member_at(ms, "max_zdb_data_dir_size"@, 7);
            assert(key_index(ms, "encryption_algorithm"@, 8));
            lemma_member_at(ms, "encryption_algorithm"@, 8);
            assert(key_index(ms, "encryption_key"@, 9));
            lemma_member_at(ms, "encryption_key"@, 9);
            assert(key_index(ms, "compression_algorithm"@, 10));
            lemma_member_at(ms, "compression_algorithm"@, 10);
            assert(key_index(ms, "metadata"@, 11));
            lemma_member_at(ms, "metadata"@, 11);
            assert(key_index(ms, "groups"@, 12));
            lemma_member_at(ms, "groups"@, 12);
            assert(key_index(ms, "metrics_endpoint"@, 13));
            lemma_member_at(ms, "metrics_endpoint"@, 13);
        },
        _ => {},
    }
}

} // verus!
