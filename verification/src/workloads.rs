//! The workload model of grid deployments: the user-facing workload types,
//! their validation, and their conversion to and from zos workloads.

use std::collections::HashMap;

use vstd::prelude::*;
use vstd::std_specs::cmp::PartialEqSpec;
use vstd::string::StringSliceAdditionalSpecFns;
use vstd::utf8::encode_utf8;

use crate::env_vars::EnvVars;
use crate::error::{is_validation, GridError};
use crate::json::{
    clone_json,     field, field_bool, field_text, field_u64, get_text, item_models, json_model, json_text, member,
    object_push, parse_json, text_of, to_json_string, JsonModel, JsonNumber, JsonValue, json_parse,
    member_models,
};
use crate::live::payload::field_u32;
use crate::text::{str_eq, trim};
use crate::zos;
use crate::zos::{cidr_parts, ResultDataView, WorkloadView};

verus! {

broadcast use vstd::std_specs::hash::group_hash_axioms;

pub const VM_TYPE: &'static str = "vm";
pub const GATEWAY_NAME_TYPE: &'static str = "Gateway Name";
pub const GATEWAY_FQDN_TYPE: &'static str = "Gateway Fqdn";
pub const K8S_TYPE: &'static str = "kubernetes";
pub const NETWORK_TYPE: &'static str = "network";

pub const VERSION3: i32 = 3;
pub const VERSION4: i32 = 4;

// ---------------------------------------------------------------------------
// Lists
// ---------------------------------------------------------------------------

/// Whether some element equals `element`.
pub fn contains<T: PartialEq>(elements: &[T], element: &T) -> (r: bool)
    ensures
        T::obeys_eq_spec() ==> (r <==> exists|i: int| 0 <= i < elements@.len() && #[trigger] elements@[i].eq_spec(element)),
{
    let mut i: usize = 0;
    while i < elements.len()
        invariant
            i <= elements@.len(),
            T::obeys_eq_spec() ==> forall|j: int| 0 <= j < i ==> !#[trigger] elements@[j].eq_spec(element),
        decreases elements.len() - i,
    {
        if elements[i].eq(element) {
            return true;
        }
        i = i + 1;
    }
    false
}

/// Removes the first element that equals `element`, if there is one.
pub fn delete<T: PartialEq>(elements: &mut Vec<T>, element: &T)
    ensures
        T::obeys_eq_spec() ==> {
            ||| (forall|i: int| 0 <= i < old(elements)@.len() ==> !#[trigger] old(elements)@[i].eq_spec(element))
                && final(elements)@ == old(elements)@
            ||| exists|i: int|
                0 <= i < old(elements)@.len() && #[trigger] old(elements)@[i].eq_spec(element)
                    && (forall|j: int| 0 <= j < i ==> !#[trigger] old(elements)@[j].eq_spec(element))
                    && final(elements)@ == old(elements)@.remove(i)
        },
{
    let mut i: usize = 0;
    while i < elements.len()
        invariant
            elements@ == old(elements)@,
            i <= elements@.len(),
            T::obeys_eq_spec() ==> forall|j: int| 0 <= j < i ==> !#[trigger] elements@[j].eq_spec(element),
        decreases elements.len() - i,
    {
        if elements[i].eq(element) {
            elements.remove(i);
            return;
        }
        i = i + 1;
    }
}

// ---------------------------------------------------------------------------
// Names
// ---------------------------------------------------------------------------

/// The characters a workload name may hold.
pub open spec fn name_char(c: char) -> bool {
    ('a' <= c && c <= 'z') || ('A' <= c && c <= 'Z') || ('0' <= c && c <= '9') || c == '_'
}

/// Why `name` is not a valid workload name, if it is not.
pub open spec fn name_error(name: Seq<char>) -> Option<Seq<char>> {
    if name.len() == 0 {
        Some("name cannot be empty"@)
    } else if encode_utf8(name).len() > 36 {
        Some("name cannot exceed 36 chars"@)
    } else if !(forall|i: int| 0 <= i < name.len() ==> #[trigger] name_char(name[i])) {
        Some("name has invalid characters"@)
    } else {
        None
    }
}

/// The validation outcome `r` for the possible error `err`.
pub open spec fn checked(r: Result<(), GridError>, err: Option<Seq<char>>) -> bool {
    match err {
        Some(m) => r matches Err(e) && is_validation(e, m),
        None => r is Ok,
    }
}

/// Checks a workload name: non-empty, at most 36 bytes, and made of ASCII
/// letters, digits and `_`.
pub fn validate_name(name: &str) -> (r: Result<(), GridError>)
    ensures
        checked(r, name_error(name@)),
{
    if name.is_empty() {
        return Err(GridError::validation("name cannot be empty"));
    }
    if name.as_bytes().len() > 36 {
        return Err(GridError::validation("name cannot exceed 36 chars"));
    }
    let n = name.unicode_len();
    let mut i: usize = 0;
    while i < n
        invariant
            n == name@.len(),
            n > 0,
            encode_utf8(name@).len() <= 36,
            i <= n,
            forall|j: int| 0 <= j < i ==> #[trigger] name_char(name@[j]),
        decreases n - i,
    {
        let c = name.get_char(i);
        if !(('a' <= c && c <= 'z') || ('A' <= c && c <= 'Z') || ('0' <= c && c <= '9') || c == '_') {
            assert(!name_char(name@[i as int]));
            assert(name.spec_bytes() == encode_utf8(name@));
            return Err(GridError::validation("name has invalid characters"));
        }
        i = i + 1;
    }
    assert(name.spec_bytes() == encode_utf8(name@));
    Ok(())
}

/// The first error of a list of checks, in order.
pub open spec fn first_error(errs: Seq<Option<Seq<char>>>) -> Option<Seq<char>>
    decreases errs.len(),
{
    if errs.len() == 0 {
        None
    } else if errs[0] is Some {
        errs[0]
    } else {
        first_error(errs.drop_first())
    }
}

proof fn lemma_first_error(errs: Seq<Option<Seq<char>>>, i: int)
    requires
        0 <= i <= errs.len(),
        forall|j: int| 0 <= j < i ==> #[trigger] errs[j] is None,
    ensures
        i == errs.len() ==> first_error(errs) is None,
        i < errs.len() && errs[i] is Some ==> first_error(errs) == errs[i],
    decreases i,
{
    if i > 0 {
        lemma_first_error(errs.drop_first(), i - 1);
        assert forall|j: int| 0 <= j < i - 1 implies #[trigger] errs.drop_first()[j] is None by {
            assert(errs.drop_first()[j] == errs[j + 1]);
        }
        lemma_first_error(errs.drop_first(), i - 1);
    }
}

// ---------------------------------------------------------------------------
// Network metadata
// ---------------------------------------------------------------------------

/// Wireguard access of a user to a network.
#[derive(Debug)]
pub struct UserAccess {
    pub subnet: String,
    pub private_key: String,
    pub node_id: u32,
}

impl Clone for UserAccess {
    fn clone(&self) -> (r: Self)
        ensures
            r == *self,
    {
        UserAccess { subnet: self.subnet.clone(), private_key: self.private_key.clone(), node_id: self.node_id }
    }
}

/// The metadata stored with a network workload, in its current and its
/// earlier layout.
#[derive(Debug)]
pub struct NetworkMetaData {
    pub version: i32,
    pub user_accesses: Vec<UserAccess>,
    pub user_accesses_deprecated: Vec<UserAccess>,
    pub version_deprecated: Option<i32>,
    pub user_access_ip: String,
    pub private_key: String,
    pub public_node_id: u32,
}

impl Default for NetworkMetaData {
    fn default() -> (r: Self)
        ensures
            r.version == VERSION3,
            r.user_accesses@.len() == 0,
            r.user_accesses_deprecated@.len() == 0,
            r.version_deprecated is None,
            r.user_access_ip@.len() == 0,
            r.private_key@.len() == 0,
            r.public_node_id == 0,
    {
        NetworkMetaData {
            version: VERSION3,
            user_accesses: Vec::new(),
            user_accesses_deprecated: Vec::new(),
            version_deprecated: None,
            user_access_ip: String::new(),
            private_key: String::new(),
            public_node_id: 0,
        }
    }
}

impl NetworkMetaData {
    /// Moves the earlier layout into the current one: a lone access given
    /// by `UserAccessIP`, `PrivateKey` and `PublicNodeID` becomes the only
    /// user access when there is none, and `Version` wins over `version`.
    pub fn normalized(self) -> (r: NetworkMetaData)
        ensures
            self.user_accesses@.len() == 0 && self.user_access_ip@.len() != 0 ==> r.user_accesses@ == seq![
                UserAccess {
                    subnet: self.user_access_ip,
                    private_key: self.private_key,
                    node_id: self.public_node_id,
                },
            ],
            !(self.user_accesses@.len() == 0 && self.user_access_ip@.len() != 0) ==> r.user_accesses@ == self.user_accesses@,
            r.version == match self.version_deprecated {
                Some(v) => v,
                None => self.version,
            },
            r.user_accesses_deprecated@ == self.user_accesses_deprecated@,
            r.version_deprecated == self.version_deprecated,
            r.user_access_ip == self.user_access_ip,
            r.private_key == self.private_key,
            r.public_node_id == self.public_node_id,
            metadata_view(r) == normalized_view(metadata_view(self)),
    {
        let mut normalized = self;
        if normalized.user_accesses.len() == 0 && normalized.user_access_ip.unicode_len() != 0 {
            let mut accesses: Vec<UserAccess> = Vec::new();
            accesses.push(
                UserAccess {
                    subnet: normalized.user_access_ip.clone(),
                    private_key: normalized.private_key.clone(),
                    node_id: normalized.public_node_id,
                },
            );
            normalized.user_accesses = accesses;
            proof {
                assert(normalized.user_accesses@.map_values(|a: UserAccess| access_view(a)) =~= seq![
                    AccessView { subnet: self.user_access_ip@, private_key: self.private_key@, node_id: self.public_node_id },
                ]);
            }
        }
        match normalized.version_deprecated {
            Some(v) => {
                normalized.version = v;
            },
            None => {},
        }
        normalized
    }
}

// ---------------------------------------------------------------------------
// Deployment metadata
// ---------------------------------------------------------------------------

/// The metadata stored with a deployment.
#[derive(Debug)]
pub struct DeploymentData {
    pub version: i32,
    pub kind: String,
    pub name: String,
    pub project_name: String,
}

/// A JSON integer that fits `i32`.
pub open spec fn i32_of(v: JsonModel) -> Option<i32> {
    match v {
        JsonModel::Number(JsonNumber::PosInt(n)) => if n <= i32::MAX {
            Some(n as i32)
        } else {
            None
        },
        JsonModel::Number(JsonNumber::NegInt(n)) => if n >= i32::MIN {
            Some(n as i32)
        } else {
            None
        },
        _ => None,
    }
}

/// The member `key` as an `i32`.
pub open spec fn field_i32(v: JsonModel, key: Seq<char>) -> Option<i32> {
    match field(v, key) {
        Some(x) => i32_of(x),
        None => None,
    }
}

/// The deployment metadata in `v`: an object with an integer `version` and
/// string `type`, `name` and `projectName`.
pub open spec fn deployment_data_of(v: JsonModel) -> Option<(i32, Seq<char>, Seq<char>, Seq<char>)> {
    match (field_i32(v, "version"@), field_text(v, "type"@), field_text(v, "name"@), field_text(v, "projectName"@)) {
        (Some(a), Some(b), Some(c), Some(d)) => Some((a, b, c, d)),
        _ => None,
    }
}

/// The `i32` a JSON value holds.
fn as_i32(v: &JsonValue) -> (r: Option<i32>)
    ensures
        r == i32_of(v@),
{
    match v {
        JsonValue::Number(JsonNumber::PosInt(n)) => if *n <= 2147483647 {
            Some(*n as i32)
        } else {
            None
        },
        JsonValue::Number(JsonNumber::NegInt(n)) => if *n >= -2147483648 {
            Some(*n as i32)
        } else {
            None
        },
        _ => None,
    }
}

fn get_i32(v: &JsonValue, key: &str) -> (r: Option<i32>)
    ensures
        r == field_i32(v@, key@),
{
    match v.get(key) {
        Some(x) => as_i32(x),
        None => None,
    }
}

/// Reads deployment metadata from its JSON text. Text that `serde_json`
/// refuses, and JSON without the four fields, is a codec error.
pub fn parse_deployment_data(meta: &str) -> (r: Result<DeploymentData, GridError>)
    ensures
        match json_parse(meta@) {
            Ok(v) => match deployment_data_of(v) {
                Some(d) => r matches Ok(x) && x.version == d.0 && x.kind@ == d.1 && x.name@ == d.2
                    && x.project_name@ == d.3,
                None => r matches Err(GridError::Codec(_)),
            },
            Err(e) => r matches Err(GridError::Codec(m)) && m@ == e,
        },
{
    let v = match parse_json(meta) {
        Ok(v) => v,
        Err(e) => return Err(GridError::Codec(e)),
    };
    let version = get_i32(&v, "version");
    let kind = get_text(&v, "type");
    let name = get_text(&v, "name");
    let project = get_text(&v, "projectName");
    match (version, kind, name, project) {
        (Some(a), Some(b), Some(c), Some(d)) => Ok(
            DeploymentData {
                version: a,
                kind: String::from_str(b),
                name: String::from_str(c),
                project_name: String::from_str(d),
            },
        ),
        _ => Err(GridError::Codec(String::from_str("invalid deployment metadata"))),
    }
}

// ---------------------------------------------------------------------------
// Hex fields
// ---------------------------------------------------------------------------

/// The value of an ASCII hex digit.
pub open spec fn hex_value(c: char) -> Option<u8> {
    if '0' <= c && c <= '9' {
        Some((c as u32 - '0' as u32) as u8)
    } else if 'a' <= c && c <= 'f' {
        Some((c as u32 - 'a' as u32 + 10) as u8)
    } else if 'A' <= c && c <= 'F' {
        Some((c as u32 - 'A' as u32 + 10) as u8)
    } else {
        None
    }
}

/// The bytes written by the hex digits `s`, two per byte.
pub open spec fn hex_bytes(s: Seq<char>) -> Seq<u8> {
    Seq::new(
        s.len() / 2,
        |i: int| (hex_value(s[2 * i]).unwrap() * 16 + hex_value(s[2 * i + 1]).unwrap()) as u8,
    )
}

/// The bytes of `raw` read as hex after trimming: empty for blank text,
/// none for an odd length or a non-hex character.
pub open spec fn hex_like(raw: Seq<char>) -> Option<Seq<u8>> {
    let t = trim(raw);
    if t.len() == 0 {
        Some(Seq::empty())
    } else if encode_utf8(t).len() % 2 != 0 {
        None
    } else if !(forall|i: int| 0 <= i < t.len() ==> #[trigger] hex_value(t[i]) is Some) {
        None
    } else {
        Some(hex_bytes(t))
    }
}

fn hex_digit_value(c: char) -> (r: Option<u8>)
    ensures
        r == hex_value(c),
{
    if '0' <= c && c <= '9' {
        Some(((c as u32) - ('0' as u32)) as u8)
    } else if 'a' <= c && c <= 'f' {
        Some(((c as u32) - ('a' as u32) + 10) as u8)
    } else if 'A' <= c && c <= 'F' {
        Some(((c as u32) - ('A' as u32) + 10) as u8)
    } else {
        None
    }
}

/// Reads `raw` as hex digits (see [`hex_like`]).
pub fn decode_hex_like(raw: &str) -> (r: Option<Vec<u8>>)
    ensures
        match hex_like(raw@) {
            Some(b) => r matches Some(v) && v@ == b,
            None => r is None,
        },
{
    let t = crate::text::trim_str(raw);
    let s = t.as_str();
    let n = s.unicode_len();
    if n == 0 {
        return Some(Vec::new());
    }
    assert(s.spec_bytes() == encode_utf8(s@));
    if s.as_bytes().len() % 2 != 0 {
        assert(encode_utf8(trim(raw@)).len() % 2 != 0);
        return None;
    }
    let mut i: usize = 0;
    while i < n
        invariant
            n == s@.len(),
            s@ == trim(raw@),
            n > 0,
            encode_utf8(s@).len() % 2 == 0,
            i <= n,
            forall|j: int| 0 <= j < i ==> #[trigger] hex_value(s@[j]) is Some,
        decreases n - i,
    {
        if hex_digit_value(s.get_char(i)).is_none() {
            assert(hex_value(s@[i as int]) is None);
            return None;
        }
        i = i + 1;
    }
    proof {
        lemma_hex_utf8_len(s@);
    }
    let mut out: Vec<u8> = Vec::new();
    let mut k: usize = 0;
    while k + 1 < n
        invariant
            n == s@.len(),
            n % 2 == 0,
            k % 2 == 0,
            k <= n,
            forall|j: int| 0 <= j < n ==> #[trigger] hex_value(s@[j]) is Some,
            out@.len() == k / 2,
            forall|j: int| 0 <= j < k / 2 ==> #[trigger] out@[j] == hex_bytes(s@)[j],
        decreases n - k,
    {
        let hi = hex_digit_value(s.get_char(k)).unwrap();
        let lo = hex_digit_value(s.get_char(k + 1)).unwrap();
        proof {
            assert(hex_value(s@[k as int]) is Some);
            assert(hex_value(s@[k + 1]) is Some);
        }
        out.push(hi * 16 + lo);
        k = k + 2;
    }
    assert(out@ =~= hex_bytes(s@));
    Some(out)
}

/// The UTF-8 length of hex digits is their number.
proof fn lemma_hex_utf8_len(s: Seq<char>)
    requires
        forall|j: int| 0 <= j < s.len() ==> #[trigger] hex_value(s[j]) is Some,
    ensures
        encode_utf8(s).len() == s.len(),
{
    assert forall|i: int| 0 <= i < s.len() implies '\0' <= #[trigger] s[i] <= '\u{7f}' by {
        assert(hex_value(s[i]) is Some);
    }
    assert(vstd::utf8::is_ascii_chars(s));
    vstd::utf8::is_ascii_chars_encode_utf8(s);
}

// ---------------------------------------------------------------------------
// Workload types
// ---------------------------------------------------------------------------

/// A volume or disk mounted in a VM.
#[derive(Debug)]
pub struct Mount {
    pub name: String,
    pub mount_point: String,
}

impl Clone for Mount {
    fn clone(&self) -> (r: Self)
        ensures
            r == *self,
    {
        Mount { name: self.name.clone(), mount_point: self.mount_point.clone() }
    }
}

/// A full virtual machine.
#[derive(Debug)]
pub struct VM {
    pub name: String,
    pub node_id: u32,
    pub network_name: String,
    pub description: String,
    pub flist: String,
    pub flist_checksum: String,
    pub entrypoint: String,
    pub public_ip: bool,
    pub public_ip6: bool,
    pub planetary: bool,
    pub corex: bool,
    pub ip: String,
    pub mycelium_ip_seed: Vec<u8>,
    pub cpus: u8,
    pub memory_mb: u64,
    pub rootfs_size_mb: u64,
    pub mounts: Vec<Mount>,
    pub zlogs: Vec<String>,
    pub env_vars: EnvVars,
    pub computed_ip: String,
    pub computed_ip6: String,
    pub planetary_ip: String,
    pub mycelium_ip: String,
    pub console_url: String,
}

/// A light virtual machine, reachable over mycelium.
#[derive(Debug)]
pub struct VMLight {
    pub name: String,
    pub node_id: u32,
    pub network_name: String,
    pub description: String,
    pub flist: String,
    pub flist_checksum: String,
    pub entrypoint: String,
    pub corex: bool,
    pub ip: String,
    pub mycelium_ip_seed: Vec<u8>,
    pub cpus: u8,
    pub memory_mb: u64,
    pub rootfs_size_mb: u64,
    pub mounts: Vec<Mount>,
    pub zlogs: Vec<String>,
    pub env_vars: EnvVars,
    pub mycelium_ip: String,
    pub console_url: String,
    pub computed_ip: String,
    pub computed_ip6: String,
}

/// A disk (zmount).
#[derive(Debug)]
pub struct Disk {
    pub name: String,
    pub size_gb: u64,
    pub description: String,
}

/// A volume.
#[derive(Debug)]
pub struct Volume {
    pub name: String,
    pub size_gb: u64,
    pub description: String,
}

/// A zero-db namespace.
#[derive(Debug)]
pub struct ZDB {
    pub name: String,
    pub password: String,
    pub public: bool,
    pub size_gb: u64,
    pub description: String,
    pub mode: String,
    pub ips: Vec<String>,
    pub port: u32,
    pub namespace: String,
}

/// A quantum safe file system.
#[derive(Debug)]
pub struct QSFS {
    pub name: String,
    pub description: String,
    pub cache: i32,
    pub minimal_shards: u32,
    pub expected_shards: u32,
    pub redundant_groups: u32,
    pub redundant_nodes: u32,
    pub max_zdb_data_dir_size: u32,
    pub encryption_algorithm: String,
    pub encryption_key: String,
    pub compression_algorithm: String,
    pub metadata: String,
    pub groups: JsonValue,
    pub metrics_endpoint: String,
}

/// A gateway that serves a name under the node's domain.
#[derive(Debug)]
pub struct GatewayNameProxy {
    pub node_id: u32,
    pub name: String,
    pub backends: Vec<String>,
    pub tls_passthrough: bool,
    pub network: String,
    pub description: String,
    pub solution_type: String,
    pub node_deployment_id: HashMap<u32, u64>,
    pub fqdn: String,
    pub name_contract_id: u64,
    pub contract_id: u64,
}

/// A gateway that serves a fully qualified domain name.
#[derive(Debug)]
pub struct GatewayFQDNProxy {
    pub node_id: u32,
    pub backends: Vec<String>,
    pub fqdn: String,
    pub name: String,
    pub tls_passthrough: bool,
    pub network: String,
    pub description: String,
    pub solution_type: String,
    pub contract_id: u64,
    pub node_deployment_id: HashMap<u32, u64>,
}

/// A network with wireguard access.
#[derive(Debug)]
pub struct ZNet {
    pub name: String,
    pub description: String,
    pub nodes: Vec<u32>,
    pub ip_range: String,
    pub add_wg_access: bool,
    pub mycelium_keys: HashMap<u32, Vec<u8>>,
    pub solution_type: String,
    pub access_wg_config: String,
    pub external_ip: Option<String>,
    pub external_sk: String,
    pub public_node_id: u32,
    pub nodes_ip_range: HashMap<u32, String>,
    pub node_deployment_id: HashMap<u32, u64>,
    pub wg_port: HashMap<u32, i32>,
    pub keys: HashMap<u32, String>,
}

/// A mycelium-only network.
#[derive(Debug)]
pub struct ZNetLight {
    pub name: String,
    pub description: String,
    pub nodes: Vec<u32>,
    pub solution_type: String,
    pub ip_range: String,
    pub nodes_ip_range: HashMap<u32, String>,
    pub node_deployment_id: HashMap<u32, u64>,
    pub public_node_id: u32,
    pub mycelium_keys: HashMap<u32, Vec<u8>>,
}

/// One node of a kubernetes cluster.
#[derive(Debug)]
pub struct K8sNode {
    pub vm: VM,
    pub disk_size_gb: u64,
}

/// A kubernetes cluster.
#[derive(Debug)]
pub struct K8sCluster {
    pub master: Option<K8sNode>,
    pub workers: Vec<K8sNode>,
    pub token: String,
    pub network_name: String,
    pub flist: String,
    pub flist_checksum: String,
    pub entry_point: String,
    pub solution_type: String,
    pub ssh_key: String,
    pub nodes_ip_range: HashMap<u32, String>,
    pub node_deployment_id: HashMap<u32, u64>,
}

// ---------------------------------------------------------------------------
// Validation
// ---------------------------------------------------------------------------

/// Why a VM (full or light) with these fields is invalid, if it is.
pub open spec fn machine_error(name: Seq<char>, network_name: Seq<char>, node_id: u32, cpus: u8, memory_mb: u64) -> Option<Seq<char>> {
    if name_error(name) is Some {
        name_error(name)
    } else if name_error(network_name) is Some {
        name_error(network_name)
    } else if node_id == 0 {
        Some("node id should be >0"@)
    } else if cpus == 0 {
        Some("cpu should be greater than zero"@)
    } else if memory_mb < 250 {
        Some("memory should be at least 250 MB"@)
    } else {
        None
    }
}

pub open spec fn vm_error(vm: VM) -> Option<Seq<char>> {
    machine_error(vm.name@, vm.network_name@, vm.node_id, vm.cpus, vm.memory_mb)
}

pub open spec fn vm_light_error(vm: VMLight) -> Option<Seq<char>> {
    machine_error(vm.name@, vm.network_name@, vm.node_id, vm.cpus, vm.memory_mb)
}

/// Why a disk, volume or zdb of this name and size is invalid, if it is.
pub open spec fn sized_error(name: Seq<char>, size_gb: u64, msg: Seq<char>) -> Option<Seq<char>> {
    if name_error(name) is Some {
        name_error(name)
    } else if size_gb == 0 {
        Some(msg)
    } else {
        None
    }
}

pub open spec fn disk_error(d: Disk) -> Option<Seq<char>> {
    sized_error(d.name@, d.size_gb, "disk size should be >0"@)
}

pub open spec fn volume_error(v: Volume) -> Option<Seq<char>> {
    sized_error(v.name@, v.size_gb, "volume size should be >0"@)
}

pub open spec fn zdb_error(z: ZDB) -> Option<Seq<char>> {
    if sized_error(z.name@, z.size_gb, "zdb size should be >0"@) is Some {
        sized_error(z.name@, z.size_gb, "zdb size should be >0"@)
    } else if z.mode@ != "user"@ && z.mode@ != "seq"@ {
        Some("unsupported zdb mode"@)
    } else {
        None
    }
}

pub open spec fn qsfs_error(q: QSFS) -> Option<Seq<char>> {
    if name_error(q.name@) is Some {
        name_error(q.name@)
    } else if q.minimal_shards > q.expected_shards {
        Some("minimal_shards > expected_shards"@)
    } else {
        None
    }
}

fn validate_machine(name: &str, network_name: &str, node_id: u32, cpus: u8, memory_mb: u64) -> (r: Result<(), GridError>)
    ensures
        checked(r, machine_error(name@, network_name@, node_id, cpus, memory_mb)),
{
    validate_name(name)?;
    validate_name(network_name)?;
    if node_id == 0 {
        return Err(GridError::validation("node id should be >0"));
    }
    if cpus == 0 {
        return Err(GridError::validation("cpu should be greater than zero"));
    }
    if memory_mb < 250 {
        return Err(GridError::validation("memory should be at least 250 MB"));
    }
    Ok(())
}

fn validate_sized(name: &str, size_gb: u64, msg: &str) -> (r: Result<(), GridError>)
    ensures
        checked(r, sized_error(name@, size_gb, msg@)),
{
    validate_name(name)?;
    if size_gb == 0 {
        return Err(GridError::validation(msg));
    }
    Ok(())
}

/// The smallest root file system a VM of this size needs: 500 MiB when
/// `cpus * memory_mb` is below 8 GiB, else 2 GiB.
pub open spec fn min_root(cpus: u8, memory_mb: u64) -> u64 {
    if (cpus as int * memory_mb as int) / (8 * zos::GIGABYTE as int) == 0 {
        524288000
    } else {
        2147483648
    }
}

fn min_root_size_of(cpus: u8, memory_mb: u64) -> (r: u64)
    requires
        cpus as int * memory_mb as int <= u64::MAX,
    ensures
        r == min_root(cpus, memory_mb),
{
    let product: u64 = (cpus as u64) * memory_mb;
    let sru = product / (8 * zos::GIGABYTE);
    if sru == 0 {
        500 * zos::MEGABYTE
    } else {
        2 * zos::GIGABYTE
    }
}

impl VM {
    /// Checks the names, the node and the compute capacity.
    pub fn validate(&self) -> (r: Result<(), GridError>)
        ensures
            checked(r, vm_error(*self)),
    {
        validate_machine(self.name.as_str(), self.network_name.as_str(), self.node_id, self.cpus, self.memory_mb)
    }

    /// The smallest root file system this VM needs.
    pub fn min_root_size(&self) -> (r: u64)
        requires
            self.cpus as int * self.memory_mb as int <= u64::MAX,
        ensures
            r == min_root(self.cpus, self.memory_mb),
    {
        min_root_size_of(self.cpus, self.memory_mb)
    }
}

impl VMLight {
    /// Checks the names, the node and the compute capacity.
    pub fn validate(&self) -> (r: Result<(), GridError>)
        ensures
            checked(r, vm_light_error(*self)),
    {
        validate_machine(self.name.as_str(), self.network_name.as_str(), self.node_id, self.cpus, self.memory_mb)
    }

    /// The smallest root file system this VM needs.
    pub fn min_root_size(&self) -> (r: u64)
        requires
            self.cpus as int * self.memory_mb as int <= u64::MAX,
        ensures
            r == min_root(self.cpus, self.memory_mb),
    {
        min_root_size_of(self.cpus, self.memory_mb)
    }
}

impl Disk {
    /// Checks the name and that the size is positive.
    pub fn validate(&self) -> (r: Result<(), GridError>)
        ensures
            checked(r, disk_error(*self)),
    {
        validate_sized(self.name.as_str(), self.size_gb, "disk size should be >0")
    }
}

impl Volume {
    /// Checks the name and that the size is positive.
    pub fn validate(&self) -> (r: Result<(), GridError>)
        ensures
            checked(r, volume_error(*self)),
    {
        validate_sized(self.name.as_str(), self.size_gb, "volume size should be >0")
    }
}

impl ZDB {
    /// Checks the name, that the size is positive and the mode is `user`
    /// or `seq`.
    pub fn validate(&self) -> (r: Result<(), GridError>)
        ensures
            checked(r, zdb_error(*self)),
    {
        validate_sized(self.name.as_str(), self.size_gb, "zdb size should be >0")?;
        if !str_eq(self.mode.as_str(), "user") && !str_eq(self.mode.as_str(), "seq") {
            return Err(GridError::validation("unsupported zdb mode"));
        }
        Ok(())
    }
}

impl QSFS {
    /// Checks the name and that the minimal shards do not exceed the
    /// expected ones.
    pub fn validate(&self) -> (r: Result<(), GridError>)
        ensures
            checked(r, qsfs_error(*self)),
    {
        validate_name(self.name.as_str())?;
        if self.minimal_shards > self.expected_shards {
            return Err(GridError::validation("minimal_shards > expected_shards"));
        }
        Ok(())
    }
}

// ---------------------------------------------------------------------------
// Zos workloads
// ---------------------------------------------------------------------------

/// The result a workload starts with.
pub open spec fn initial_result() -> ResultDataView {
    ResultDataView { created: 0, state: zos::STATE_INIT@, error: Seq::empty(), data: JsonModel::Null }
}

/// A fresh workload with no metadata.
pub open spec fn fresh_workload(name: Seq<char>, kind: Seq<char>, data: JsonModel, description: Seq<char>) -> WorkloadView {
    WorkloadView {
        version: 0,
        name,
        workload_type: kind,
        data,
        metadata: Seq::empty(),
        description,
        result: initial_result(),
    }
}

fn fresh(name: String, kind: &str, data: JsonValue, description: String) -> (r: zos::Workload)
    ensures
        r@ == fresh_workload(name@, kind@, data@, description@),
{
    zos::Workload {
        version: 0,
        name,
        workload_type: String::from_str(kind),
        data,
        metadata: String::new(),
        description,
        result: zos::ResultData::default(),
    }
}

/// A number model of a `u64`.
pub open spec fn num(n: u64) -> JsonModel {
    JsonModel::Number(JsonNumber::PosInt(n))
}

/// The data of a disk or volume workload.
pub open spec fn size_data(size_gb: u64) -> JsonModel {
    JsonModel::Object(seq![("size_gb"@, num(size_gb))])
}

fn size_value(size_gb: u64) -> (r: JsonValue)
    ensures
        r@ == size_data(size_gb),
{
    let mut m: Vec<(String, JsonValue)> = Vec::new();
    object_push(&mut m, "size_gb", JsonValue::Number(JsonNumber::PosInt(size_gb)));
    assert(member_models(m@) =~= seq![("size_gb"@, num(size_gb))]);
    JsonValue::Object(m)
}

pub open spec fn disk_workload(d: Disk) -> WorkloadView {
    fresh_workload(d.name@, zos::ZMOUNT_TYPE@, size_data(d.size_gb), d.description@)
}

pub open spec fn volume_workload(v: Volume) -> WorkloadView {
    fresh_workload(v.name@, zos::VOLUME_TYPE@, size_data(v.size_gb), v.description@)
}

/// The data of a zdb workload.
pub open spec fn zdb_data(z: ZDB) -> JsonModel {
    JsonModel::Object(
        seq![
            ("size_gb"@, num(z.size_gb)),
            ("mode"@, JsonModel::Str(z.mode@)),
            ("password"@, JsonModel::Str(z.password@)),
            ("public"@, JsonModel::Bool(z.public)),
        ],
    )
}

pub open spec fn zdb_workload(z: ZDB) -> WorkloadView {
    fresh_workload(z.name@, zos::ZDB_TYPE@, zdb_data(z), z.description@)
}

/// The data of a public IP workload.
pub open spec fn public_ip_data(ipv4: bool, ipv6: bool) -> JsonModel {
    JsonModel::Object(seq![("v4"@, JsonModel::Bool(ipv4)), ("v6"@, JsonModel::Bool(ipv6))])
}

pub open spec fn public_ip_workload(name: Seq<char>, ipv4: bool, ipv6: bool) -> WorkloadView {
    fresh_workload(name, zos::PUBLIC_IP_TYPE@, public_ip_data(ipv4, ipv6), Seq::empty())
}

/// A public IP workload asking for an IPv4 and/or an IPv6 address.
pub fn construct_public_ip_workload(name: &str, ipv4: bool, ipv6: bool) -> (r: zos::Workload)
    ensures
        r@ == public_ip_workload(name@, ipv4, ipv6),
{
    let mut m: Vec<(String, JsonValue)> = Vec::new();
    object_push(&mut m, "v4", JsonValue::Bool(ipv4));
    object_push(&mut m, "v6", JsonValue::Bool(ipv6));
    assert(member_models(m@) =~= seq![("v4"@, JsonModel::Bool(ipv4)), ("v6"@, JsonModel::Bool(ipv6))]);
    fresh(String::from_str(name), zos::PUBLIC_IP_TYPE, JsonValue::Object(m), String::new())
}

impl Disk {
    /// The zmount workload of this disk.
    pub fn zos_workload(&self) -> (r: zos::Workload)
        ensures
            r@ == disk_workload(*self),
    {
        fresh(self.name.clone(), zos::ZMOUNT_TYPE, size_value(self.size_gb), self.description.clone())
    }
}

impl Volume {
    /// The volume workload of this volume.
    pub fn zos_workload(&self) -> (r: zos::Workload)
        ensures
            r@ == volume_workload(*self),
    {
        fresh(self.name.clone(), zos::VOLUME_TYPE, size_value(self.size_gb), self.description.clone())
    }
}

impl ZDB {
    /// The zdb workload of this namespace.
    pub fn zos_workload(&self) -> (r: zos::Workload)
        ensures
            r@ == zdb_workload(*self),
    {
        let mut m: Vec<(String, JsonValue)> = Vec::new();
        object_push(&mut m, "size_gb", JsonValue::Number(JsonNumber::PosInt(self.size_gb)));
        object_push(&mut m, "mode", JsonValue::String(self.mode.clone()));
        object_push(&mut m, "password", JsonValue::String(self.password.clone()));
        object_push(&mut m, "public", JsonValue::Bool(self.public));
        assert(member_models(m@) =~= seq![
            ("size_gb"@, num(self.size_gb)),
            ("mode"@, JsonModel::Str(self.mode@)),
            ("password"@, JsonModel::Str(self.password@)),
            ("public"@, JsonModel::Bool(self.public)),
        ]);
        fresh(self.name.clone(), zos::ZDB_TYPE, JsonValue::Object(m), self.description.clone())
    }
}

/// The number model of an `i32`.
pub open spec fn int_model(n: i32) -> JsonModel {
    if n >= 0 {
        JsonModel::Number(JsonNumber::PosInt(n as u64))
    } else {
        JsonModel::Number(JsonNumber::NegInt(n as i64))
    }
}

fn int_value(n: i32) -> (r: JsonValue)
    ensures
        r@ == int_model(n),
{
    if n >= 0 {
        JsonValue::Number(JsonNumber::PosInt(n as u64))
    } else {
        JsonValue::Number(JsonNumber::NegInt(n as i64))
    }
}

/// The data of a qsfs workload: every field of the qsfs.
pub open spec fn qsfs_data(q: QSFS) -> JsonModel {
    JsonModel::Object(
        seq![
            ("name"@, JsonModel::Str(q.name@)),
            ("description"@, JsonModel::Str(q.description@)),
            ("cache"@, int_model(q.cache)),
            ("minimal_shards"@, num(q.minimal_shards as u64)),
            ("expected_shards"@, num(q.expected_shards as u64)),
            ("redundant_groups"@, num(q.redundant_groups as u64)),
            ("redundant_nodes"@, num(q.redundant_nodes as u64)),
            ("max_zdb_data_dir_size"@, num(q.max_zdb_data_dir_size as u64)),
            ("encryption_algorithm"@, JsonModel::Str(q.encryption_algorithm@)),
            ("encryption_key"@, JsonModel::Str(q.encryption_key@)),
            ("compression_algorithm"@, JsonModel::Str(q.compression_algorithm@)),
            ("metadata"@, JsonModel::Str(q.metadata@)),
            ("groups"@, q.groups@),
            ("metrics_endpoint"@, JsonModel::Str(q.metrics_endpoint@)),
        ],
    )
}

pub open spec fn qsfs_workload(q: QSFS) -> WorkloadView {
    fresh_workload(q.name@, zos::QUANTUM_SAFE_FS_TYPE@, qsfs_data(q), q.description@)
}

impl QSFS {
    /// The qsfs workload, whose data is the qsfs itself.
    pub fn zos_workload(&self) -> (r: Result<zos::Workload, GridError>)
        ensures
            r matches Ok(w) && w@ == qsfs_workload(*self),
    {
        let mut m: Vec<(String, JsonValue)> = Vec::new();
        object_push(&mut m, "name", JsonValue::String(self.name.clone()));
        object_push(&mut m, "description", JsonValue::String(self.description.clone()));
        object_push(&mut m, "cache", int_value(self.cache));
        object_push(&mut m, "minimal_shards", JsonValue::Number(JsonNumber::PosInt(self.minimal_shards as u64)));
        object_push(&mut m, "expected_shards", JsonValue::Number(JsonNumber::PosInt(self.expected_shards as u64)));
        object_push(&mut m, "redundant_groups", JsonValue::Number(JsonNumber::PosInt(self.redundant_groups as u64)));
        object_push(&mut m, "redundant_nodes", JsonValue::Number(JsonNumber::PosInt(self.redundant_nodes as u64)));
        object_push(&mut m, "max_zdb_data_dir_size", JsonValue::Number(JsonNumber::PosInt(self.max_zdb_data_dir_size as u64)));
        object_push(&mut m, "encryption_algorithm", JsonValue::String(self.encryption_algorithm.clone()));
        object_push(&mut m, "encryption_key", JsonValue::String(self.encryption_key.clone()));
        object_push(&mut m, "compression_algorithm", JsonValue::String(self.compression_algorithm.clone()));
        object_push(&mut m, "metadata", JsonValue::String(self.metadata.clone()));
        object_push(&mut m, "groups", self.groups.clone());
        object_push(&mut m, "metrics_endpoint", JsonValue::String(self.metrics_endpoint.clone()));
        assert(member_models(m@) =~= match qsfs_data(*self) {
            JsonModel::Object(ms) => ms,
            _ => Seq::empty(),
        });
        Ok(fresh(self.name.clone(), zos::QUANTUM_SAFE_FS_TYPE, JsonValue::Object(m), self.description.clone()))
    }
}

/// The JSON model of mounts.
pub open spec fn mounts_model(ms: Seq<Mount>) -> Seq<JsonModel> {
    ms.map_values(
        |m: Mount| JsonModel::Object(seq![("name"@, JsonModel::Str(m.name@)), ("mount_point"@, JsonModel::Str(m.mount_point@))]),
    )
}

fn mounts_value(ms: &Vec<Mount>) -> (r: JsonValue)
    ensures
        r@ == JsonModel::Array(mounts_model(ms@)),
{
    let mut items: Vec<JsonValue> = Vec::new();
    let mut i: usize = 0;
    while i < ms.len()
        invariant
            i <= ms@.len(),
            item_models(items@) == mounts_model(ms@.take(i as int)),
        decreases ms.len() - i,
    {
        let mut m: Vec<(String, JsonValue)> = Vec::new();
        object_push(&mut m, "name", JsonValue::String(ms[i].name.clone()));
        object_push(&mut m, "mount_point", JsonValue::String(ms[i].mount_point.clone()));
        let x = JsonValue::Object(m);
        proof {
            assert(member_models(m@) =~= seq![("name"@, JsonModel::Str(ms@[i as int].name@)), ("mount_point"@, JsonModel::Str(ms@[i as int].mount_point@))]);
            crate::json::lemma_item_models_push(items@, x);
            assert(mounts_model(ms@.take(i + 1)) =~= mounts_model(ms@.take(i as int)).push(x@));
        }
        items.push(x);
        i = i + 1;
    }
    assert(ms@.take(ms@.len() as int) =~= ms@);
    JsonValue::Array(items)
}

/// The JSON model of environment variables, in insertion order.
pub open spec fn env_model(env: EnvVars) -> Seq<(Seq<char>, JsonModel)> {
    env.entry_seq().map_values(|e: (String, String)| (e.0@, JsonModel::Str(e.1@)))
}

fn env_value(env: &EnvVars) -> (r: JsonValue)
    ensures
        r@ == JsonModel::Object(env_model(*env)),
{
    let mut m: Vec<(String, JsonValue)> = Vec::new();
    let n = env.len();
    let mut i: usize = 0;
    while i < n
        invariant
            n == env.entry_seq().len(),
            i <= n,
            member_models(m@) == env_model(*env).take(i as int),
        decreases n - i,
    {
        let (k, v) = env.entry(i);
        object_push(&mut m, k.as_str(), JsonValue::String(v.clone()));
        assert(env_model(*env).take(i + 1) =~= env_model(*env).take(i as int).push(env_model(*env)[i as int]));
        i = i + 1;
    }
    assert(env_model(*env).take(n as int) =~= env_model(*env));
    JsonValue::Object(m)
}

/// The data of a zmachine or zmachine-light workload.
pub open spec fn machine_data(
    flist: Seq<char>,
    network_name: Seq<char>,
    ip: Seq<char>,
    cpus: u8,
    memory_mb: u64,
    rootfs_size_mb: u64,
    mounts: Seq<Mount>,
    env: EnvVars,
    entrypoint: Seq<char>,
    corex: bool,
) -> JsonModel {
    JsonModel::Object(
        seq![
            ("flist"@, JsonModel::Str(flist)),
            ("network_name"@, JsonModel::Str(network_name)),
            ("ip"@, JsonModel::Str(ip)),
            ("compute_cpu"@, num(cpus as u64)),
            ("compute_memory_mb"@, num(memory_mb)),
            ("rootfs_size_mb"@, num(rootfs_size_mb)),
            ("mounts"@, JsonModel::Array(mounts_model(mounts))),
            ("env_vars"@, JsonModel::Object(env_model(env))),
            ("entrypoint"@, JsonModel::Str(entrypoint)),
            ("corex"@, JsonModel::Bool(corex)),
        ],
    )
}

fn machine_value(
    flist: &String,
    network_name: &String,
    ip: &String,
    cpus: u8,
    memory_mb: u64,
    rootfs_size_mb: u64,
    mounts: &Vec<Mount>,
    env: &EnvVars,
    entrypoint: &String,
    corex: bool,
) -> (r: JsonValue)
    ensures
        r@ == machine_data(flist@, network_name@, ip@, cpus, memory_mb, rootfs_size_mb, mounts@, *env, entrypoint@, corex),
{
    let mut m: Vec<(String, JsonValue)> = Vec::new();
    object_push(&mut m, "flist", JsonValue::String(flist.clone()));
    object_push(&mut m, "network_name", JsonValue::String(network_name.clone()));
    object_push(&mut m, "ip", JsonValue::String(ip.clone()));
    object_push(&mut m, "compute_cpu", JsonValue::Number(JsonNumber::PosInt(cpus as u64)));
    object_push(&mut m, "compute_memory_mb", JsonValue::Number(JsonNumber::PosInt(memory_mb)));
    object_push(&mut m, "rootfs_size_mb", JsonValue::Number(JsonNumber::PosInt(rootfs_size_mb)));
    object_push(&mut m, "mounts", mounts_value(mounts));
    object_push(&mut m, "env_vars", env_value(env));
    object_push(&mut m, "entrypoint", JsonValue::String(entrypoint.clone()));
    object_push(&mut m, "corex", JsonValue::Bool(corex));
    assert(member_models(m@) =~= match machine_data(flist@, network_name@, ip@, cpus, memory_mb, rootfs_size_mb, mounts@, *env, entrypoint@, corex) {
        JsonModel::Object(ms) => ms,
        _ => Seq::empty(),
    });
    JsonValue::Object(m)
}

/// The workloads of a VM: its public IP workload when it asks for a public
/// address, then its zmachine.
pub open spec fn vm_workloads(vm: VM) -> Seq<WorkloadView> {
    let machine = fresh_workload(
        vm.name@,
        zos::ZMACHINE_TYPE@,
        machine_data(vm.flist@, vm.network_name@, vm.ip@, vm.cpus, vm.memory_mb, vm.rootfs_size_mb, vm.mounts@, vm.env_vars, vm.entrypoint@, vm.corex),
        vm.description@,
    );
    if vm.public_ip || vm.public_ip6 {
        seq![public_ip_workload(vm.name@ + "ip"@, vm.public_ip, vm.public_ip6), machine]
    } else {
        seq![machine]
    }
}

/// A VM that asks for a public address is deployed with a public IP
/// workload first, named after it with `ip` appended, whose `v4` member is
/// whether it asks for IPv4 and whose `v6` member is whether it asks for
/// IPv6; a VM that asks for neither gets no public IP workload.
pub proof fn law_public_ip_workload_asks_what_the_vm_asks(vm: VM)
    ensures
        vm.public_ip || vm.public_ip6 ==> {
            let w = vm_workloads(vm)[0];
            &&& w.workload_type == zos::PUBLIC_IP_TYPE@
            &&& w.name == vm.name@ + "ip"@
            &&& crate::json::field_bool(w.data, "v4"@) == Some(vm.public_ip)
            &&& crate::json::field_bool(w.data, "v6"@) == Some(vm.public_ip6)
        },
        !(vm.public_ip || vm.public_ip6) ==> forall|i: int| 0 <= i < vm_workloads(vm).len()
            ==> #[trigger] vm_workloads(vm)[i].workload_type != zos::PUBLIC_IP_TYPE@,
{
    reveal_strlit("v4");
    reveal_strlit("v6");
    reveal_strlit("ip");
    reveal_strlit("zmachine");
    assert("v4"@ != "v6"@) by {
        assert("v4"@[1] != "v6"@[1]);
    }
    assert(zos::ZMACHINE_TYPE@.len() == 8);
    assert(zos::PUBLIC_IP_TYPE@.len() == 2);
    let ms = seq![("v4"@, JsonModel::Bool(vm.public_ip)), ("v6"@, JsonModel::Bool(vm.public_ip6))];
    assert(ms.drop_first() =~= seq![("v6"@, JsonModel::Bool(vm.public_ip6))]);
    assert(crate::json::member(ms, "v4"@) == Some(JsonModel::Bool(vm.public_ip)));
    assert(crate::json::member(ms.drop_first(), "v6"@) == Some(JsonModel::Bool(vm.public_ip6)));
    assert(crate::json::member(ms, "v6"@) == Some(JsonModel::Bool(vm.public_ip6)));
    assert(public_ip_data(vm.public_ip, vm.public_ip6) == JsonModel::Object(ms));
}

/// The workload of a light VM: its zmachine-light.
pub open spec fn vm_light_workloads(vm: VMLight) -> Seq<WorkloadView> {
    seq![
        fresh_workload(
            vm.name@,
            zos::ZMACHINE_LIGHT_TYPE@,
            machine_data(vm.flist@, vm.network_name@, vm.ip@, vm.cpus, vm.memory_mb, vm.rootfs_size_mb, vm.mounts@, vm.env_vars, vm.entrypoint@, vm.corex),
            vm.description@,
        ),
    ]
}

impl VM {
    /// The workloads that deploy this VM.
    pub fn zos_workload(&self) -> (r: Vec<zos::Workload>)
        ensures
            zos::workload_views(r@) == vm_workloads(*self),
    {
        let mut workloads: Vec<zos::Workload> = Vec::new();
        if self.public_ip || self.public_ip6 {
            let name = self.name.clone().concat("ip");
            workloads.push(construct_public_ip_workload(name.as_str(), self.public_ip, self.public_ip6));
        }
        let data = machine_value(
            &self.flist,
            &self.network_name,
            &self.ip,
            self.cpus,
            self.memory_mb,
            self.rootfs_size_mb,
            &self.mounts,
            &self.env_vars,
            &self.entrypoint,
            self.corex,
        );
        workloads.push(fresh(self.name.clone(), zos::ZMACHINE_TYPE, data, self.description.clone()));
        assert(zos::workload_views(workloads@) =~= vm_workloads(*self));
        workloads
    }
}

impl VMLight {
    /// The workloads that deploy this light VM.
    pub fn zos_workload(&self) -> (r: Vec<zos::Workload>)
        ensures
            zos::workload_views(r@) == vm_light_workloads(*self),
    {
        let data = machine_value(
            &self.flist,
            &self.network_name,
            &self.ip,
            self.cpus,
            self.memory_mb,
            self.rootfs_size_mb,
            &self.mounts,
            &self.env_vars,
            &self.entrypoint,
            self.corex,
        );
        let mut workloads: Vec<zos::Workload> = Vec::new();
        workloads.push(fresh(self.name.clone(), zos::ZMACHINE_LIGHT_TYPE, data, self.description.clone()));
        assert(zos::workload_views(workloads@) =~= vm_light_workloads(*self));
        workloads
    }
}

// ---------------------------------------------------------------------------
// Byte fields
// ---------------------------------------------------------------------------

/// The byte values among array items: integers below 256, in order.
pub open spec fn bytes_in(items: Seq<JsonModel>) -> Seq<u8>
    decreases items.len(),
{
    if items.len() == 0 {
        Seq::empty()
    } else {
        let rest = bytes_in(items.drop_last());
        match u64_of_model(items.last()) {
            Some(n) => if n < 256 {
                rest.push(n as u8)
            } else {
                rest
            },
            None => rest,
        }
    }
}

pub open spec fn u64_of_model(v: JsonModel) -> Option<u64> {
    crate::json::u64_of(v)
}

/// The bytes a field holds: hex text, or other text as its UTF-8 bytes, or
/// an array of byte values; nothing otherwise.
pub open spec fn hex_field_bytes(v: JsonModel) -> Seq<u8> {
    match v {
        JsonModel::Str(s) => match hex_like(s) {
            Some(b) => b,
            None => encode_utf8(s),
        },
        JsonModel::Array(items) => bytes_in(items),
        _ => Seq::empty(),
    }
}

fn parse_bytes(items: &Vec<JsonValue>) -> (r: Vec<u8>)
    ensures
        r@ == bytes_in(item_models(items@)),
{
    let mut out: Vec<u8> = Vec::new();
    let mut i: usize = 0;
    while i < items.len()
        invariant
            i <= items@.len(),
            out@ == bytes_in(item_models(items@.take(i as int))),
        decreases items.len() - i,
    {
        proof {
            assert(items@.take(i + 1) =~= items@.take(i as int).push(items@[i as int]));
            crate::json::lemma_item_models_push(items@.take(i as int), items@[i as int]);
            assert(item_models(items@.take(i + 1)).drop_last() =~= item_models(items@.take(i as int)));
        }
        match items[i].as_u64() {
            Some(n) => {
                if n < 256 {
                    out.push(n as u8);
                }
            },
            None => {},
        }
        i = i + 1;
    }
    assert(items@.take(items@.len() as int) =~= items@);
    out
}

/// The bytes a field holds (see [`hex_field_bytes`]).
pub fn get_hex_bytes(value: &JsonValue) -> (r: Vec<u8>)
    ensures
        r@ == hex_field_bytes(value@),
{
    match value {
        JsonValue::String(raw) => match decode_hex_like(raw.as_str()) {
            Some(b) => b,
            None => vstd::slice::slice_to_vec(raw.as_str().as_bytes()),
        },
        JsonValue::Array(items) => parse_bytes(items),
        _ => Vec::new(),
    }
}

// ---------------------------------------------------------------------------
// Reading workloads back
// ---------------------------------------------------------------------------

/// A disk read back from its workload; a missing size reads as zero.
pub fn new_disk_from_workload(workload: &zos::Workload) -> (r: Result<Disk, GridError>)
    ensures
        r matches Ok(d) && d.name@ == workload.name@ && d.description@ == workload.description@
            && d.size_gb == match field_u64(workload.data@, "size_gb"@) {
                Some(n) => n,
                None => 0,
            },
{
    let size = match crate::json::get_u64(&workload.data, "size_gb") {
        Some(n) => n,
        None => 0,
    };
    Ok(Disk { name: workload.name.clone(), size_gb: size, description: workload.description.clone() })
}

/// A volume read back from its workload; a missing size reads as zero.
pub fn new_volume_from_workload(workload: &zos::Workload) -> (r: Result<Volume, GridError>)
    ensures
        r matches Ok(v) && v.name@ == workload.name@ && v.description@ == workload.description@
            && v.size_gb == match field_u64(workload.data@, "size_gb"@) {
                Some(n) => n,
                None => 0,
            },
{
    let size = match crate::json::get_u64(&workload.data, "size_gb") {
        Some(n) => n,
        None => 0,
    };
    Ok(Volume { name: workload.name.clone(), size_gb: size, description: workload.description.clone() })
}

/// The data of a qsfs workload has every member a QSFS needs, of the right
/// type.
pub open spec fn qsfs_decodes(d: JsonModel) -> bool {
    &&& field_text(d, "name"@) is Some
    &&& field_text(d, "description"@) is Some
    &&& field_i32(d, "cache"@) is Some
    &&& field_u32(d, "minimal_shards"@) is Some
    &&& field_u32(d, "expected_shards"@) is Some
    &&& field_u32(d, "redundant_groups"@) is Some
    &&& field_u32(d, "redundant_nodes"@) is Some
    &&& field_u32(d, "max_zdb_data_dir_size"@) is Some
    &&& field_text(d, "encryption_algorithm"@) is Some
    &&& field_text(d, "encryption_key"@) is Some
    &&& field_text(d, "compression_algorithm"@) is Some
    &&& field_text(d, "metadata"@) is Some
    &&& field(d, "groups"@) is Some
    &&& field_text(d, "metrics_endpoint"@) is Some
}

/// `q` holds the members of the qsfs data `d`.
pub open spec fn qsfs_from(q: QSFS, d: JsonModel) -> bool {
    &&& q.name@ == field_text(d, "name"@).unwrap()
    &&& q.description@ == field_text(d, "description"@).unwrap()
    &&& q.cache == field_i32(d, "cache"@).unwrap()
    &&& q.minimal_shards == field_u32(d, "minimal_shards"@).unwrap()
    &&& q.expected_shards == field_u32(d, "expected_shards"@).unwrap()
    &&& q.redundant_groups == field_u32(d, "redundant_groups"@).unwrap()
    &&& q.redundant_nodes == field_u32(d, "redundant_nodes"@).unwrap()
    &&& q.max_zdb_data_dir_size == field_u32(d, "max_zdb_data_dir_size"@).unwrap()
    &&& q.encryption_algorithm@ == field_text(d, "encryption_algorithm"@).unwrap()
    &&& q.encryption_key@ == field_text(d, "encryption_key"@).unwrap()
    &&& q.compression_algorithm@ == field_text(d, "compression_algorithm"@).unwrap()
    &&& q.metadata@ == field_text(d, "metadata"@).unwrap()
    &&& q.groups@ == field(d, "groups"@).unwrap()
    &&& q.metrics_endpoint@ == field_text(d, "metrics_endpoint"@).unwrap()
}

fn get_u32_member(v: &JsonValue, key: &str) -> (r: Option<u32>)
    ensures
        r == field_u32(v@, key@),
{
    match v.get(key) {
        Some(JsonValue::Number(JsonNumber::PosInt(n))) => if *n <= 4294967295u64 { Some(*n as u32) } else { None },
        _ => None,
    }
}

fn get_owned_text(v: &JsonValue, key: &str) -> (r: Option<String>)
    ensures
        match field_text(v@, key@) {
            Some(t) => r matches Some(s) && s@ == t,
            None => r is None,
        },
{
    match get_text(v, key) {
        Some(t) => Some(String::from_str(t)),
        None => None,
    }
}

/// A quantum safe file system read back from its workload's data, every
/// member required; a codec error when one is missing or of the wrong type.
pub fn new_qsfs_from_workload(workload: &zos::Workload) -> (r: Result<QSFS, GridError>)
    ensures
        qsfs_decodes(workload.data@) ==> (r matches Ok(q) && qsfs_from(q, workload.data@)),
        !qsfs_decodes(workload.data@) ==> r matches Err(GridError::Codec(_)),
{
    let d = &workload.data;
    let groups = match d.get("groups") {
        Some(g) => Some(clone_json(g)),
        None => None,
    };
    match (
        get_owned_text(d, "name"),
        get_owned_text(d, "description"),
        get_i32(d, "cache"),
        get_u32_member(d, "minimal_shards"),
        get_u32_member(d, "expected_shards"),
        get_u32_member(d, "redundant_groups"),
        get_u32_member(d, "redundant_nodes"),
        get_u32_member(d, "max_zdb_data_dir_size"),
        get_owned_text(d, "encryption_algorithm"),
        get_owned_text(d, "encryption_key"),
        get_owned_text(d, "compression_algorithm"),
        get_owned_text(d, "metadata"),
        groups,
        get_owned_text(d, "metrics_endpoint"),
    ) {
        (
            Some(name),
            Some(description),
            Some(cache),
            Some(minimal_shards),
            Some(expected_shards),
            Some(redundant_groups),
            Some(redundant_nodes),
            Some(max_zdb_data_dir_size),
            Some(encryption_algorithm),
            Some(encryption_key),
            Some(compression_algorithm),
            Some(metadata),
            Some(groups),
            Some(metrics_endpoint),
        ) => Ok(QSFS {
            name,
            description,
            cache,
            minimal_shards,
            expected_shards,
            redundant_groups,
            redundant_nodes,
            max_zdb_data_dir_size,
            encryption_algorithm,
            encryption_key,
            compression_algorithm,
            metadata,
            groups,
            metrics_endpoint,
        }),
        _ => Err(GridError::Codec(String::from_str("qsfs data does not match the qsfs schema"))),
    }
}

/// A zdb read back from its workload: size (default zero), mode (default
/// `user`) and public flag (default false); the rest is empty.
pub fn new_zdb_from_workload(workload: &zos::Workload) -> (r: Result<ZDB, GridError>)
    ensures
        r matches Ok(z) && z.name@ == workload.name@ && z.description@ == workload.description@
            && z.size_gb == match field_u64(workload.data@, "size_gb"@) {
                Some(n) => n,
                None => 0,
            } && z.mode@ == match field_text(workload.data@, "mode"@) {
                Some(t) => t,
                None => "user"@,
            } && z.public == match field_bool(workload.data@, "public"@) {
                Some(b) => b,
                None => false,
            } && z.password@.len() == 0 && z.ips@.len() == 0 && z.port == 0 && z.namespace@.len() == 0,
{
    let size = match crate::json::get_u64(&workload.data, "size_gb") {
        Some(n) => n,
        None => 0,
    };
    let mode = match get_text(&workload.data, "mode") {
        Some(t) => String::from_str(t),
        None => String::from_str("user"),
    };
    let public = match crate::json::get_bool(&workload.data, "public") {
        Some(b) => b,
        None => false,
    };
    Ok(
        ZDB {
            name: workload.name.clone(),
            password: String::new(),
            public,
            size_gb: size,
            description: workload.description.clone(),
            mode,
            ips: Vec::new(),
            port: 0,
            namespace: String::new(),
        },
    )
}

/// The string items of an array, in order.
pub open spec fn strings_in(items: Seq<JsonModel>) -> Seq<Seq<char>>
    decreases items.len(),
{
    if items.len() == 0 {
        Seq::empty()
    } else {
        match text_of(items.last()) {
            Some(t) => strings_in(items.drop_last()).push(t),
            None => strings_in(items.drop_last()),
        }
    }
}

/// The string backends listed in workload data.
pub open spec fn backends_of(data: JsonModel) -> Seq<Seq<char>> {
    match field(data, "backends"@) {
        Some(JsonModel::Array(items)) => strings_in(items),
        _ => Seq::empty(),
    }
}

fn read_backends(data: &JsonValue) -> (r: Vec<String>)
    ensures
        r@.map_values(|s: String| s@) == backends_of(data@),
{
    let mut out: Vec<String> = Vec::new();
    match data.get("backends") {
        Some(v) => match v.as_array() {
            Some(items) => {
                let mut i: usize = 0;
                while i < items.len()
                    invariant
                        i <= items@.len(),
                        out@.map_values(|s: String| s@) == strings_in(item_models(items@.take(i as int))),
                    decreases items.len() - i,
                {
                    proof {
                        assert(items@.take(i + 1) =~= items@.take(i as int).push(items@[i as int]));
                        crate::json::lemma_item_models_push(items@.take(i as int), items@[i as int]);
                        assert(item_models(items@.take(i + 1)).drop_last() =~= item_models(items@.take(i as int)));
                    }
                    let ghost before = out@;
                    match items[i].as_str() {
                        Some(t) => {
                            out.push(String::from_str(t));
                            assert(out@.map_values(|s: String| s@) =~= before.map_values(|s: String| s@).push(t@));
                        },
                        None => {},
                    }
                    i = i + 1;
                }
                assert(items@.take(items@.len() as int) =~= items@);
            },
            None => {},
        },
        None => {},
    }
    proof {
        if !(field(data@, "backends"@) matches Some(JsonModel::Array(_))) {
            assert(out@.map_values(|s: String| s@) =~= Seq::<Seq<char>>::empty());
        }
    }
    out
}

/// The text of `v`, or `default` when it is not a string.
pub open spec fn text_or(v: Option<JsonModel>, default: Seq<char>) -> Seq<char> {
    match v {
        Some(x) => match text_of(x) {
            Some(t) => t,
            None => default,
        },
        None => default,
    }
}

fn read_text_or(v: Option<&JsonValue>, default: &str) -> (r: String)
    ensures
        r@ == text_or(
            match v {
                Some(x) => Some(x@),
                None => None,
            },
            default@,
        ),
{
    match v {
        Some(x) => match x.as_str() {
            Some(t) => String::from_str(t),
            None => String::from_str(default),
        },
        None => String::from_str(default),
    }
}

/// The member `first` when present, else the member `second`.
pub open spec fn field_or(v: JsonModel, first: Seq<char>, second: Seq<char>) -> Option<JsonModel> {
    if field(v, first) is Some {
        field(v, first)
    } else {
        field(v, second)
    }
}

fn get_or<'a>(v: &'a JsonValue, first: &str, second: &str) -> (r: Option<&'a JsonValue>)
    ensures
        match field_or(v@, first@, second@) {
            Some(x) => r matches Some(y) && y@ == x,
            None => r is None,
        },
{
    match v.get(first) {
        Some(x) => Some(x),
        None => v.get(second),
    }
}

/// `g` holds what a name gateway workload `w` says: name (else fqdn, else
/// the workload name), string backends, TLS passthrough, network and
/// description from the data, and the fqdn the node reported.
pub open spec fn gateway_name_read(g: GatewayNameProxy, w: WorkloadView) -> bool {
    &&& g.name@ == text_or(field_or(w.data, "name"@, "fqdn"@), w.name)
    &&& g.backends@.map_values(|s: String| s@) == backends_of(w.data)
    &&& g.tls_passthrough == (match field_bool(w.data, "tls_passthrough"@) {
        Some(b) => b,
        None => false,
    })
    &&& g.network@ == text_or(field(w.data, "network"@), Seq::empty())
    &&& g.description@ == w.description
    &&& g.fqdn@ == text_or(field_or(w.result.data, "fqdn"@, "FQDN"@), Seq::empty())
}

/// `g` holds what an fqdn gateway workload `w` says: fqdn, name (else the
/// workload name), string backends, TLS passthrough, network and
/// description.
pub open spec fn gateway_fqdn_read(g: GatewayFQDNProxy, w: WorkloadView) -> bool {
    &&& g.fqdn@ == text_or(field(w.data, "fqdn"@), Seq::empty())
    &&& g.name@ == text_or(field(w.data, "name"@), w.name)
    &&& g.backends@.map_values(|s: String| s@) == backends_of(w.data)
    &&& g.tls_passthrough == (match field_bool(w.data, "tls_passthrough"@) {
        Some(b) => b,
        None => false,
    })
    &&& g.network@ == text_or(field(w.data, "network"@), Seq::empty())
    &&& g.description@ == w.description
}

impl GatewayNameProxy {
    /// Reads a name gateway back from its workload: name (else fqdn, else
    /// the workload name), string backends, network and TLS passthrough from
    /// the data, and the fqdn the node reported.
    pub fn from_workload(wl: &zos::Workload) -> (r: Result<GatewayNameProxy, GridError>)
        ensures
            r matches Ok(g) && g.node_id == 0 && gateway_name_read(g, wl@) && g.solution_type@.len() == 0
                && g.node_deployment_id@ == Map::<u32, u64>::empty()
                && g.name_contract_id == 0 && g.contract_id == 0,
    {
        let data = &wl.data;
        let name = read_text_or(get_or(data, "name", "fqdn"), wl.name.as_str());
        let backends = read_backends(data);
        let network = read_text_or(data.get("network"), "");
        let tls = match crate::json::get_bool(data, "tls_passthrough") {
            Some(b) => b,
            None => false,
        };
        let fqdn = read_text_or(get_or(&wl.result.data, "fqdn", "FQDN"), "");
        proof {
            reveal_strlit("");
        }
        let g = GatewayNameProxy {
            node_id: 0,
            name,
            backends,
            tls_passthrough: tls,
            network,
            description: wl.description.clone(),
            solution_type: String::new(),
            node_deployment_id: HashMap::new(),
            fqdn,
            name_contract_id: 0,
            contract_id: 0,
        };
        assert(g.network@ == text_or(field(wl@.data, "network"@), Seq::empty()));
        assert(g.description@ == wl@.description);
        assert(g.fqdn@ == text_or(field_or(wl@.result.data, "fqdn"@, "FQDN"@), Seq::empty()));
        Ok(g)
    }
}

impl GatewayFQDNProxy {
    /// Reads an fqdn gateway back from its workload: fqdn, name (else the
    /// workload name), string backends, TLS passthrough and network.
    pub fn from_workload(wl: &zos::Workload) -> (r: Result<GatewayFQDNProxy, GridError>)
        ensures
            r matches Ok(g) && g.node_id == 0 && gateway_fqdn_read(g, wl@) && g.solution_type@.len() == 0 && g.contract_id == 0
                && g.node_deployment_id@ == Map::<u32, u64>::empty(),
    {
        let data = &wl.data;
        let fqdn = read_text_or(data.get("fqdn"), "");
        let name = read_text_or(data.get("name"), wl.name.as_str());
        let backends = read_backends(data);
        let tls = match crate::json::get_bool(data, "tls_passthrough") {
            Some(b) => b,
            None => false,
        };
        let network = read_text_or(data.get("network"), "");
        proof {
            reveal_strlit("");
        }
        let g = GatewayFQDNProxy {
            node_id: 0,
            backends,
            fqdn,
            name,
            tls_passthrough: tls,
            network,
            description: wl.description.clone(),
            solution_type: String::new(),
            contract_id: 0,
            node_deployment_id: HashMap::new(),
        };
        assert(g.fqdn@ == text_or(field(wl@.data, "fqdn"@), Seq::empty()));
        assert(g.network@ == text_or(field(wl@.data, "network"@), Seq::empty()));
        Ok(g)
    }
}

/// Whether a kubernetes VM workload is the master: its `env` has no
/// `K3S_URL`, or an empty one. Data without an `env` object is not a VM.
pub fn is_master_node(workload: &zos::Workload) -> (r: Result<bool, GridError>)
    ensures
        match field(workload.data@, "env"@) {
            Some(JsonModel::Object(env)) => r matches Ok(b) && b == (member(env, "K3S_URL"@) is None
                || member(env, "K3S_URL"@).unwrap() == JsonModel::Str(Seq::empty())),
            _ => r matches Err(e) && is_validation(e, "workload is not a VM workload"@),
        },
{
    match workload.data.get("env") {
        Some(env) => match env {
            JsonValue::Object(_) => match env.get("K3S_URL") {
                None => Ok(true),
                Some(v) => match v.as_str() {
                    Some(t) => {
                        assert(t@.len() == 0 ==> t@ =~= Seq::<char>::empty());
                        Ok(t.unicode_len() == 0)
                    },
                    None => Ok(false),
                },
            },
            _ => Err(GridError::validation("workload is not a VM workload")),
        },
        None => Err(GridError::validation("workload is not a VM workload")),
    }
}

// ---------------------------------------------------------------------------
// Deployments
// ---------------------------------------------------------------------------

/// The workloads of one node deployment.
#[derive(Debug)]
pub struct Deployment {
    pub name: String,
    pub node_id: u32,
    pub solution_type: String,
    pub solution_provider: Option<u64>,
    pub network_name: String,
    pub disks: Vec<Disk>,
    pub zdbs: Vec<ZDB>,
    pub vms: Vec<VM>,
    pub vms_light: Vec<VMLight>,
    pub qsfs: Vec<QSFS>,
    pub volumes: Vec<Volume>,
    pub node_deployment_id: HashMap<u32, u64>,
    pub contract_id: u64,
    pub ip_range: String,
}

/// `a` when it is an error, else `b`.
pub open spec fn or_else(a: Option<Seq<char>>, b: Option<Seq<char>>) -> Option<Seq<char>> {
    if a is Some {
        a
    } else {
        b
    }
}

/// Why a deployment is invalid, if it is: its name, its node, mixing full
/// and light VMs, then the first invalid VM, light VM, zdb, qsfs, disk and
/// volume, in that order.
pub open spec fn deployment_error(d: Deployment) -> Option<Seq<char>> {
    if name_error(d.name@) is Some {
        name_error(d.name@)
    } else if d.node_id == 0 {
        Some("node id must be >0"@)
    } else if d.vms@.len() != 0 && d.vms_light@.len() != 0 {
        Some("cannot mix vm and vm-light in one deployment"@)
    } else {
        or_else(
            first_error(d.vms@.map_values(|v: VM| vm_error(v))),
            or_else(
                first_error(d.vms_light@.map_values(|v: VMLight| vm_light_error(v))),
                or_else(
                    first_error(d.zdbs@.map_values(|z: ZDB| zdb_error(z))),
                    or_else(
                        first_error(d.qsfs@.map_values(|q: QSFS| qsfs_error(q))),
                        or_else(
                            first_error(d.disks@.map_values(|x: Disk| disk_error(x))),
                            first_error(d.volumes@.map_values(|x: Volume| volume_error(x))),
                        ),
                    ),
                ),
            ),
        )
    }
}

/// The metadata model of a deployment: version 3, its kind, its name and
/// its project (the solution type, else the name).
pub open spec fn metadata_model(d: Deployment) -> JsonModel {
    JsonModel::Object(
        seq![
            ("version"@, num(3)),
            ("type"@, JsonModel::Str(if d.vms_light@.len() == 0 { "vm"@ } else { "vm-light"@ })),
            ("name"@, JsonModel::Str(d.name@)),
            ("projectName"@, JsonModel::Str(if d.solution_type@.len() == 0 { d.name@ } else { d.solution_type@ })),
        ],
    )
}

/// The concatenation of a sequence of sequences.
pub open spec fn flatten(s: Seq<Seq<WorkloadView>>) -> Seq<WorkloadView>
    decreases s.len(),
{
    if s.len() == 0 {
        Seq::empty()
    } else {
        flatten(s.drop_last()) + s.last()
    }
}

/// The zos workloads of a deployment: disks, volumes, zdbs, VMs, light VMs
/// and qsfs, each in order.
pub open spec fn deployment_workloads(d: Deployment) -> Seq<WorkloadView> {
    d.disks@.map_values(|x: Disk| disk_workload(x)) + d.volumes@.map_values(|x: Volume| volume_workload(x))
        + d.zdbs@.map_values(|x: ZDB| zdb_workload(x)) + flatten(d.vms@.map_values(|x: VM| vm_workloads(x)))
        + flatten(d.vms_light@.map_values(|x: VMLight| vm_light_workloads(x))) + d.qsfs@.map_values(
        |x: QSFS| qsfs_workload(x),
    )
}

/// The signature requirement of a deployment signed by `twin_id` alone.
pub open spec fn single_signer(twin_id: u32) -> zos::SignatureRequirementView {
    zos::SignatureRequirementView {
        requests: seq![zos::SignatureRequest { twin_id, required: true, weight: 1 }],
        weight_required: 1,
        signatures: Seq::empty(),
        signature_style: Seq::empty(),
    }
}

fn append_workloads(out: &mut Vec<zos::Workload>, more: Vec<zos::Workload>)
    ensures
        zos::workload_views(final(out)@) == zos::workload_views(old(out)@) + zos::workload_views(more@),
{
    let mut more = more;
    let ghost start = out@;
    let ghost all = more@;
    let mut taken: Vec<zos::Workload> = Vec::new();
    out.append(&mut more);
    assert(out@ =~= start + all);
    assert(zos::workload_views(out@) =~= zos::workload_views(start) + zos::workload_views(all));
}

impl Deployment {
    /// A deployment of the given workloads with no contract yet.
    pub fn new(
        name: &str,
        node_id: u32,
        solution_type: &str,
        solution_provider: Option<u64>,
        network_name: &str,
        disks: Vec<Disk>,
        zdbs: Vec<ZDB>,
        vms: Vec<VM>,
        vms_light: Vec<VMLight>,
        qsfs: Vec<QSFS>,
        volumes: Vec<Volume>,
    ) -> (r: Deployment)
        ensures
            r.name@ == name@,
            r.node_id == node_id,
            r.solution_type@ == solution_type@,
            r.solution_provider == solution_provider,
            r.network_name@ == network_name@,
            r.disks == disks,
            r.zdbs == zdbs,
            r.vms == vms,
            r.vms_light == vms_light,
            r.qsfs == qsfs,
            r.volumes == volumes,
            r.node_deployment_id@ == Map::<u32, u64>::empty(),
            r.contract_id == 0,
            r.ip_range@.len() == 0,
    {
        Deployment {
            name: String::from_str(name),
            node_id,
            solution_type: String::from_str(solution_type),
            solution_provider,
            network_name: String::from_str(network_name),
            disks,
            zdbs,
            vms,
            vms_light,
            qsfs,
            volumes,
            node_deployment_id: HashMap::new(),
            contract_id: 0,
            ip_range: String::new(),
        }
    }

    /// Checks the deployment and every workload in it (see
    /// [`deployment_error`]).
    #[verifier::loop_isolation(false)]
    pub fn validate(&self) -> (r: Result<(), GridError>)
        ensures
            checked(r, deployment_error(*self)),
    {
        validate_name(self.name.as_str())?;
        if self.node_id == 0 {
            return Err(GridError::validation("node id must be >0"));
        }
        if self.vms.len() != 0 && self.vms_light.len() != 0 {
            return Err(GridError::validation("cannot mix vm and vm-light in one deployment"));
        }
        let ghost e1 = self.vms@.map_values(|v: VM| vm_error(v));
        let ghost e2 = self.vms_light@.map_values(|v: VMLight| vm_light_error(v));
        let ghost e3 = self.zdbs@.map_values(|z: ZDB| zdb_error(z));
        let ghost e4 = self.qsfs@.map_values(|q: QSFS| qsfs_error(q));
        let ghost e5 = self.disks@.map_values(|x: Disk| disk_error(x));
        let ghost e6 = self.volumes@.map_values(|x: Volume| volume_error(x));
        let mut i: usize = 0;
        while i < self.vms.len()
            invariant
                i <= self.vms@.len(),
                e1 == self.vms@.map_values(|v: VM| vm_error(v)),
                forall|j: int| 0 <= j < i ==> #[trigger] e1[j] is None,
            decreases self.vms.len() - i,
        {
            let res = self.vms[i].validate();
            if res.is_err() {
                proof { lemma_first_error(e1, i as int); }
                return res;
            }
            i = i + 1;
        }
        proof { lemma_first_error(e1, i as int); }
        let mut i: usize = 0;
        while i < self.vms_light.len()
            invariant
                i <= self.vms_light@.len(),
                e2 == self.vms_light@.map_values(|v: VMLight| vm_light_error(v)),
                forall|j: int| 0 <= j < i ==> #[trigger] e2[j] is None,
            decreases self.vms_light.len() - i,
        {
            let res = self.vms_light[i].validate();
            if res.is_err() {
                proof { lemma_first_error(e2, i as int); }
                return res;
            }
            i = i + 1;
        }
        proof { lemma_first_error(e2, i as int); }
        let mut i: usize = 0;
        while i < self.zdbs.len()
            invariant
                i <= self.zdbs@.len(),
                e3 == self.zdbs@.map_values(|z: ZDB| zdb_error(z)),
                forall|j: int| 0 <= j < i ==> #[trigger] e3[j] is None,
            decreases self.zdbs.len() - i,
        {
            let res = self.zdbs[i].validate();
            if res.is_err() {
                proof { lemma_first_error(e3, i as int); }
                return res;
            }
            i = i + 1;
        }
        proof { lemma_first_error(e3, i as int); }
        let mut i: usize = 0;
        while i < self.qsfs.len()
            invariant
                i <= self.qsfs@.len(),
                e4 == self.qsfs@.map_values(|q: QSFS| qsfs_error(q)),
                forall|j: int| 0 <= j < i ==> #[trigger] e4[j] is None,
            decreases self.qsfs.len() - i,
        {
            let res = self.qsfs[i].validate();
            if res.is_err() {
                proof { lemma_first_error(e4, i as int); }
                return res;
            }
            i = i + 1;
        }
        proof { lemma_first_error(e4, i as int); }
        let mut i: usize = 0;
        while i < self.disks.len()
            invariant
                i <= self.disks@.len(),
                e5 == self.disks@.map_values(|x: Disk| disk_error(x)),
                forall|j: int| 0 <= j < i ==> #[trigger] e5[j] is None,
            decreases self.disks.len() - i,
        {
            let res = self.disks[i].validate();
            if res.is_err() {
                proof { lemma_first_error(e5, i as int); }
                return res;
            }
            i = i + 1;
        }
        proof { lemma_first_error(e5, i as int); }
        let mut i: usize = 0;
        while i < self.volumes.len()
            invariant
                i <= self.volumes@.len(),
                e6 == self.volumes@.map_values(|x: Volume| volume_error(x)),
                forall|j: int| 0 <= j < i ==> #[trigger] e6[j] is None,
            decreases self.volumes.len() - i,
        {
            let res = self.volumes[i].validate();
            if res.is_err() {
                proof { lemma_first_error(e6, i as int); }
                return res;
            }
            i = i + 1;
        }
        proof { lemma_first_error(e6, i as int); }
        Ok(())
    }

    /// The deployment metadata as compact JSON text.
    pub fn generate_metadata(&self) -> (r: String)
        ensures
            r@ == json_text(metadata_model(*self)),
    {
        let kind = if self.vms_light.len() == 0 {
            String::from_str("vm")
        } else {
            String::from_str("vm-light")
        };
        let project = if self.solution_type.unicode_len() == 0 {
            self.name.clone()
        } else {
            self.solution_type.clone()
        };
        proof {
            assert(self.solution_type@.len() == 0 ==> self.solution_type@ =~= Seq::<char>::empty());
        }
        let mut m: Vec<(String, JsonValue)> = Vec::new();
        object_push(&mut m, "version", JsonValue::Number(JsonNumber::PosInt(3)));
        object_push(&mut m, "type", JsonValue::String(kind));
        object_push(&mut m, "name", JsonValue::String(self.name.clone()));
        object_push(&mut m, "projectName", JsonValue::String(project));
        let v = JsonValue::Object(m);
        assert(member_models(m@) =~= match metadata_model(*self) {
            JsonModel::Object(ms) => ms,
            _ => Seq::empty(),
        });
        assert(v@ == metadata_model(*self));
        to_json_string(&v)
    }

    /// The zos deployment for `twin_id`: every workload (see
    /// [`deployment_workloads`]), the metadata, and `twin_id` as the only
    /// required signer.
    #[verifier::loop_isolation(false)]
    pub fn zos_deployment(&self, twin_id: u32) -> (r: Result<zos::Deployment, GridError>)
        ensures
            r matches Ok(z) && z@ == (zos::DeploymentView {
                version: 0,
                twin_id,
                contract_id: self.contract_id,
                metadata: json_text(metadata_model(*self)),
                description: Seq::empty(),
                expiration: 0,
                signature_requirement: single_signer(twin_id),
                workloads: deployment_workloads(*self),
            }),
    {
        let mut out: Vec<zos::Workload> = Vec::new();
        let ghost start = zos::workload_views(out@);
        let mut i: usize = 0;
        while i < self.disks.len()
            invariant
                i <= self.disks@.len(),
                zos::workload_views(out@) == self.disks@.take(i as int).map_values(|x: Disk| disk_workload(x)),
            decreases self.disks.len() - i,
        {
            let ghost before = out@;
            out.push(self.disks[i].zos_workload());
            assert(zos::workload_views(out@) =~= zos::workload_views(before).push(disk_workload(self.disks@[i as int])));
            assert(self.disks@.take(i + 1).map_values(|x: Disk| disk_workload(x)) =~= self.disks@.take(i as int).map_values(|x: Disk| disk_workload(x)).push(disk_workload(self.disks@[i as int])));
            i = i + 1;
        }
        assert(self.disks@.take(self.disks@.len() as int) =~= self.disks@);
        let ghost w1 = zos::workload_views(out@);
        let mut i: usize = 0;
        while i < self.volumes.len()
            invariant
                i <= self.volumes@.len(),
                zos::workload_views(out@) == w1 + self.volumes@.take(i as int).map_values(|x: Volume| volume_workload(x)),
            decreases self.volumes.len() - i,
        {
            let ghost before = out@;
            out.push(self.volumes[i].zos_workload());
            assert(zos::workload_views(out@) =~= zos::workload_views(before).push(volume_workload(self.volumes@[i as int])));
            assert(self.volumes@.take(i + 1).map_values(|x: Volume| volume_workload(x)) =~= self.volumes@.take(i as int).map_values(|x: Volume| volume_workload(x)).push(volume_workload(self.volumes@[i as int])));
            i = i + 1;
        }
        assert(self.volumes@.take(self.volumes@.len() as int) =~= self.volumes@);
        let ghost w2 = zos::workload_views(out@);
        let mut i: usize = 0;
        while i < self.zdbs.len()
            invariant
                i <= self.zdbs@.len(),
                zos::workload_views(out@) == w2 + self.zdbs@.take(i as int).map_values(|x: ZDB| zdb_workload(x)),
            decreases self.zdbs.len() - i,
        {
            let ghost before = out@;
            out.push(self.zdbs[i].zos_workload());
            assert(zos::workload_views(out@) =~= zos::workload_views(before).push(zdb_workload(self.zdbs@[i as int])));
            assert(self.zdbs@.take(i + 1).map_values(|x: ZDB| zdb_workload(x)) =~= self.zdbs@.take(i as int).map_values(|x: ZDB| zdb_workload(x)).push(zdb_workload(self.zdbs@[i as int])));
            i = i + 1;
        }
        assert(self.zdbs@.take(self.zdbs@.len() as int) =~= self.zdbs@);
        let ghost w3 = zos::workload_views(out@);
        let mut i: usize = 0;
        while i < self.vms.len()
            invariant
                i <= self.vms@.len(),
                zos::workload_views(out@) == w3 + flatten(self.vms@.take(i as int).map_values(|x: VM| vm_workloads(x))),
            decreases self.vms.len() - i,
        {
            let ghost before = out@;
            let more = self.vms[i].zos_workload();
            append_workloads(&mut out, more);
            assert(self.vms@.take(i + 1).map_values(|x: VM| vm_workloads(x)).drop_last() =~= self.vms@.take(i as int).map_values(|x: VM| vm_workloads(x)));
            i = i + 1;
        }
        assert(self.vms@.take(self.vms@.len() as int) =~= self.vms@);
        let ghost w4 = zos::workload_views(out@);
        let mut i: usize = 0;
        while i < self.vms_light.len()
            invariant
                i <= self.vms_light@.len(),
                zos::workload_views(out@) == w4 + flatten(self.vms_light@.take(i as int).map_values(|x: VMLight| vm_light_workloads(x))),
            decreases self.vms_light.len() - i,
        {
            let more = self.vms_light[i].zos_workload();
            append_workloads(&mut out, more);
            assert(self.vms_light@.take(i + 1).map_values(|x: VMLight| vm_light_workloads(x)).drop_last() =~= self.vms_light@.take(i as int).map_values(|x: VMLight| vm_light_workloads(x)));
            i = i + 1;
        }
        assert(self.vms_light@.take(self.vms_light@.len() as int) =~= self.vms_light@);
        let ghost w5 = zos::workload_views(out@);
        let mut i: usize = 0;
        while i < self.qsfs.len()
            invariant
                i <= self.qsfs@.len(),
                zos::workload_views(out@) == w5 + self.qsfs@.take(i as int).map_values(|x: QSFS| qsfs_workload(x)),
            decreases self.qsfs.len() - i,
        {
            let ghost before = out@;
            let w = match self.qsfs[i].zos_workload() {
                Ok(w) => w,
                Err(e) => return Err(e),
            };
            out.push(w);
            assert(zos::workload_views(out@) =~= zos::workload_views(before).push(qsfs_workload(self.qsfs@[i as int])));
            assert(self.qsfs@.take(i + 1).map_values(|x: QSFS| qsfs_workload(x)) =~= self.qsfs@.take(i as int).map_values(|x: QSFS| qsfs_workload(x)).push(qsfs_workload(self.qsfs@[i as int])));
            i = i + 1;
        }
        assert(self.qsfs@.take(self.qsfs@.len() as int) =~= self.qsfs@);
        assert(zos::workload_views(out@) =~= deployment_workloads(*self));
        let mut requests: Vec<zos::SignatureRequest> = Vec::new();
        requests.push(zos::SignatureRequest { twin_id, required: true, weight: 1 });
        let requirement = zos::SignatureRequirement {
            requests,
            weight_required: 1,
            signatures: Vec::new(),
            signature_style: String::new(),
        };
        assert(requirement@.signatures =~= Seq::<Seq<char>>::empty());
        assert(requirement@.requests =~= seq![zos::SignatureRequest { twin_id, required: true, weight: 1 }]);
        Ok(
            zos::Deployment {
                version: 0,
                twin_id,
                contract_id: self.contract_id,
                metadata: self.generate_metadata(),
                description: String::new(),
                expiration: 0,
                signature_requirement: requirement,
                workloads: out,
            },
        )
    }

    /// Drops every workload.
    pub fn nullify(&mut self)
        ensures
            final(self).vms@.len() == 0,
            final(self).vms_light@.len() == 0,
            final(self).qsfs@.len() == 0,
            final(self).disks@.len() == 0,
            final(self).zdbs@.len() == 0,
            final(self).volumes@.len() == 0,
            final(self).name == old(self).name,
            final(self).node_id == old(self).node_id,
            final(self).solution_type == old(self).solution_type,
            final(self).solution_provider == old(self).solution_provider,
            final(self).network_name == old(self).network_name,
            final(self).node_deployment_id == old(self).node_deployment_id,
            final(self).contract_id == old(self).contract_id,
            final(self).ip_range == old(self).ip_range,
    {
        self.vms.clear();
        self.vms_light.clear();
        self.qsfs.clear();
        self.disks.clear();
        self.zdbs.clear();
        self.volumes.clear();
    }
}

// ---------------------------------------------------------------------------
// Networks read back from workloads
// ---------------------------------------------------------------------------

/// A JSON integer that fits `u32`.
pub open spec fn u32_of(v: JsonModel) -> Option<u32> {
    match v {
        JsonModel::Number(JsonNumber::PosInt(n)) => if n <= u32::MAX {
            Some(n as u32)
        } else {
            None
        },
        _ => None,
    }
}

/// A JSON integer that fits `u16`.
pub open spec fn u16_of(v: JsonModel) -> Option<u16> {
    match v {
        JsonModel::Number(JsonNumber::PosInt(n)) => if n <= u16::MAX {
            Some(n as u16)
        } else {
            None
        },
        _ => None,
    }
}

/// A field with a default: absent gives the default, a string its text,
/// anything else nothing.
pub open spec fn text_field_or(v: JsonModel, key: Seq<char>, default: Seq<char>) -> Option<Seq<char>> {
    match field(v, key) {
        None => Some(default),
        Some(x) => text_of(x),
    }
}

fn read_text_field_or(v: &JsonValue, key: &str, default: &str) -> (r: Option<String>)
    ensures
        match text_field_or(v@, key@, default@) {
            Some(t) => r matches Some(s) && s@ == t,
            None => r is None,
        },
{
    match v.get(key) {
        None => Some(String::from_str(default)),
        Some(x) => match x.as_str() {
            Some(t) => Some(String::from_str(t)),
            None => None,
        },
    }
}

fn as_u32(v: &JsonValue) -> (r: Option<u32>)
    ensures
        r == u32_of(v@),
{
    match v.as_u64() {
        Some(n) => if n <= 4294967295 {
            Some(n as u32)
        } else {
            None
        },
        None => None,
    }
}

/// Wireguard access as read from network metadata.
pub struct AccessView {
    pub subnet: Seq<char>,
    pub private_key: Seq<char>,
    pub node_id: u32,
}

pub open spec fn access_of(v: JsonModel) -> Option<AccessView> {
    match (field_text(v, "subnet"@), field_text(v, "private_key"@), field(v, "node_id"@)) {
        (Some(s), Some(k), Some(n)) => match u32_of(n) {
            Some(id) => Some(AccessView { subnet: s, private_key: k, node_id: id }),
            None => None,
        },
        _ => None,
    }
}

pub open spec fn accesses_of(items: Seq<JsonModel>) -> Option<Seq<AccessView>>
    decreases items.len(),
{
    if items.len() == 0 {
        Some(Seq::empty())
    } else {
        match (accesses_of(items.drop_last()), access_of(items.last())) {
            (Some(rest), Some(a)) => Some(rest.push(a)),
            _ => None,
        }
    }
}

/// A list of accesses with an empty default.
pub open spec fn access_list(v: JsonModel, key: Seq<char>) -> Option<Seq<AccessView>> {
    match field(v, key) {
        None => Some(Seq::empty()),
        Some(JsonModel::Array(items)) => accesses_of(items),
        Some(_) => None,
    }
}

pub open spec fn access_view(a: UserAccess) -> AccessView {
    AccessView { subnet: a.subnet@, private_key: a.private_key@, node_id: a.node_id }
}

proof fn lemma_accesses_prefix(s: Seq<JsonModel>, k: int)
    requires
        0 <= k <= s.len(),
        accesses_of(s.take(k)) is None,
    ensures
        accesses_of(s) is None,
    decreases s.len() - k,
{
    if k < s.len() {
        assert(s.drop_last().take(k) =~= s.take(k));
        lemma_accesses_prefix(s.drop_last(), k);
    } else {
        assert(s.take(k) =~= s);
    }
}

#[verifier::loop_isolation(false)]
fn read_accesses(v: &JsonValue, key: &str) -> (r: Option<Vec<UserAccess>>)
    ensures
        match access_list(v@, key@) {
            Some(l) => r matches Some(x) && x@.map_values(|a: UserAccess| access_view(a)) == l,
            None => r is None,
        },
{
    let items = match v.get(key) {
        None => {
            let out: Vec<UserAccess> = Vec::new();
            assert(out@.map_values(|a: UserAccess| access_view(a)) =~= Seq::<AccessView>::empty());
            return Some(out);
        },
        Some(x) => match x.as_array() {
            Some(items) => items,
            None => return None,
        },
    };
    let mut out: Vec<UserAccess> = Vec::new();
    let mut i: usize = 0;
    while i < items.len()
        invariant
            i <= items@.len(),
            accesses_of(item_models(items@.take(i as int))) == Some(out@.map_values(|a: UserAccess| access_view(a))),
        decreases items.len() - i,
    {
        proof {
            assert(items@.take(i + 1) =~= items@.take(i as int).push(items@[i as int]));
            crate::json::lemma_item_models_push(items@.take(i as int), items@[i as int]);
            assert(item_models(items@.take(i + 1)).drop_last() =~= item_models(items@.take(i as int)));
        }
        let it = &items[i];
        let subnet = get_text(it, "subnet");
        let key = get_text(it, "private_key");
        let node = match it.get("node_id") {
            Some(n) => as_u32(n),
            None => None,
        };
        match (subnet, key, node) {
            (Some(s), Some(k), Some(n)) => {
                let ghost before = out@;
                out.push(UserAccess { subnet: String::from_str(s), private_key: String::from_str(k), node_id: n });
                assert(out@.map_values(|a: UserAccess| access_view(a)) =~= before.map_values(|a: UserAccess| access_view(a)).push(
                    AccessView { subnet: s@, private_key: k@, node_id: n },
                ));
            },
            _ => {
                proof {
                    let t = item_models(items@.take(i + 1));
                    assert(access_of(t.last()) is None);
                    crate::json::lemma_item_models_len(items@);
                    crate::json::lemma_item_models_len(items@.take(i + 1));
                    assert(item_models(items@).take(i + 1) =~= t);
                    lemma_accesses_prefix(item_models(items@), i + 1);
                }
                return None;
            },
        }
        i = i + 1;
    }
    assert(items@.take(items@.len() as int) =~= items@);
    Some(out)
}

/// Network metadata as read from its JSON text.
pub struct NetworkMetaDataView {
    pub version: i32,
    pub user_accesses: Seq<AccessView>,
    pub user_accesses_deprecated: Seq<AccessView>,
    pub version_deprecated: Option<i32>,
    pub user_access_ip: Seq<char>,
    pub private_key: Seq<char>,
    pub public_node_id: u32,
}

/// The network metadata in `v`: a required integer `version`, and the
/// optional `user_accesses`, `UserAccesses`, `Version`, `UserAccessIP`,
/// `PrivateKey` and `PublicNodeID`, each of the right type when present.
pub open spec fn network_metadata_of(v: JsonModel) -> Option<NetworkMetaDataView> {
    let version_deprecated: Option<Option<i32>> = match field(v, "Version"@) {
        None => Some(None),
        Some(JsonModel::Null) => Some(None),
        Some(x) => match i32_of(x) {
            Some(n) => Some(Some(n)),
            None => None,
        },
    };
    let public_node_id: Option<u32> = match field(v, "PublicNodeID"@) {
        None => Some(0u32),
        Some(x) => u32_of(x),
    };
    match (
        field_i32(v, "version"@),
        access_list(v, "user_accesses"@),
        access_list(v, "UserAccesses"@),
        version_deprecated,
        text_field_or(v, "UserAccessIP"@, Seq::empty()),
        text_field_or(v, "PrivateKey"@, Seq::empty()),
        public_node_id,
    ) {
        (Some(a), Some(b), Some(c), Some(d), Some(e), Some(f), Some(g)) => Some(
            NetworkMetaDataView {
                version: a,
                user_accesses: b,
                user_accesses_deprecated: c,
                version_deprecated: d,
                user_access_ip: e,
                private_key: f,
                public_node_id: g,
            },
        ),
        _ => None,
    }
}

pub open spec fn metadata_view(m: NetworkMetaData) -> NetworkMetaDataView {
    NetworkMetaDataView {
        version: m.version,
        user_accesses: m.user_accesses@.map_values(|a: UserAccess| access_view(a)),
        user_accesses_deprecated: m.user_accesses_deprecated@.map_values(|a: UserAccess| access_view(a)),
        version_deprecated: m.version_deprecated,
        user_access_ip: m.user_access_ip@,
        private_key: m.private_key@,
        public_node_id: m.public_node_id,
    }
}

/// The metadata after moving the earlier layout into the current one (see
/// [`NetworkMetaData::normalized`]).
pub open spec fn normalized_view(m: NetworkMetaDataView) -> NetworkMetaDataView {
    NetworkMetaDataView {
        version: match m.version_deprecated {
            Some(v) => v,
            None => m.version,
        },
        user_accesses: if m.user_accesses.len() == 0 && m.user_access_ip.len() != 0 {
            seq![AccessView { subnet: m.user_access_ip, private_key: m.private_key, node_id: m.public_node_id }]
        } else {
            m.user_accesses
        },
        ..m
    }
}

/// Normalizing network metadata a second time changes nothing.
pub proof fn law_normalized_idempotent(m: NetworkMetaDataView)
    ensures
        normalized_view(normalized_view(m)) == normalized_view(m),
{
}

/// Reads network metadata from its JSON text.
pub fn parse_network_metadata(meta: &str) -> (r: Result<NetworkMetaData, GridError>)
    ensures
        match json_parse(meta@) {
            Ok(v) => match network_metadata_of(v) {
                Some(m) => r matches Ok(x) && metadata_view(x) == m,
                None => r matches Err(GridError::Codec(_)),
            },
            Err(e) => r matches Err(GridError::Codec(m)) && m@ == e,
        },
{
    let v = match parse_json(meta) {
        Ok(v) => v,
        Err(e) => return Err(GridError::Codec(e)),
    };
    let version = get_i32(&v, "version");
    let accesses = read_accesses(&v, "user_accesses");
    let deprecated = read_accesses(&v, "UserAccesses");
    let version_deprecated: Option<Option<i32>> = match v.get("Version") {
        None => Some(None),
        Some(JsonValue::Null) => Some(None),
        Some(x) => match as_i32(x) {
            Some(n) => Some(Some(n)),
            None => None,
        },
    };
    let ip = read_text_field_or(&v, "UserAccessIP", "");
    let key = read_text_field_or(&v, "PrivateKey", "");
    let public_node_id: Option<u32> = match v.get("PublicNodeID") {
        None => Some(0),
        Some(x) => as_u32(x),
    };
    proof {
        reveal_strlit("");
        assert(""@ =~= Seq::<char>::empty());
    }
    match (version, accesses, deprecated, version_deprecated, ip, key, public_node_id) {
        (Some(a), Some(b), Some(c), Some(d), Some(e), Some(f), Some(g)) => Ok(
            NetworkMetaData {
                version: a,
                user_accesses: b,
                user_accesses_deprecated: c,
                version_deprecated: d,
                user_access_ip: e,
                private_key: f,
                public_node_id: g,
            },
        ),
        _ => Err(GridError::Codec(String::from_str("invalid network metadata"))),
    }
}

/// The typed data of a network workload.
pub struct NetworkDataView {
    pub ip_range: Seq<char>,
    pub subnet: Seq<char>,
    pub wg_private_key: Seq<char>,
    pub wg_listen_port: u16,
    pub mycelium: Option<JsonModel>,
}

/// A field that may be absent or null.
pub open spec fn optional_field(v: JsonModel, key: Seq<char>) -> Option<JsonModel> {
    match field(v, key) {
        Some(JsonModel::Null) => None,
        x => x,
    }
}

/// The data of a network workload: string `ip_range` and `subnet`, an
/// optional string `wireguard_private_key` and port `wireguard_listen_port`,
/// and an optional `mycelium` value.
pub open spec fn network_data_of(v: JsonModel) -> Option<NetworkDataView> {
    let port: Option<u16> = match field(v, "wireguard_listen_port"@) {
        None => Some(0u16),
        Some(x) => u16_of(x),
    };
    match (field_text(v, "ip_range"@), field_text(v, "subnet"@), text_field_or(v, "wireguard_private_key"@, Seq::empty()), port) {
        (Some(a), Some(b), Some(c), Some(d)) => Some(
            NetworkDataView {
                ip_range: a,
                subnet: b,
                wg_private_key: c,
                wg_listen_port: d,
                mycelium: optional_field(v, "mycelium"@),
            },
        ),
        _ => None,
    }
}

/// The data of a network-light workload: a string `subnet` and an optional
/// `mycelium` value.
pub open spec fn network_light_data_of(v: JsonModel) -> Option<(Seq<char>, Option<JsonModel>)> {
    match field_text(v, "subnet"@) {
        Some(s) => Some((s, optional_field(v, "mycelium"@))),
        None => None,
    }
}

/// The mycelium key in the `hex_key` of the mycelium data, if any.
pub open spec fn mycelium_key(mycelium: Option<JsonModel>) -> Seq<u8> {
    match mycelium {
        Some(m) => match field(m, "hex_key"@) {
            Some(h) => hex_field_bytes(h),
            None => Seq::empty(),
        },
        None => Seq::empty(),
    }
}

fn read_mycelium_key(mycelium: Option<&JsonValue>) -> (r: Vec<u8>)
    ensures
        r@ == mycelium_key(
            match mycelium {
                Some(m) => Some(m@),
                None => None,
            },
        ),
{
    match mycelium {
        Some(m) => match m.get("hex_key") {
            Some(h) => get_hex_bytes(h),
            None => Vec::new(),
        },
        None => Vec::new(),
    }
}

fn get_optional<'a>(v: &'a JsonValue, key: &str) -> (r: Option<&'a JsonValue>)
    ensures
        match optional_field(v@, key@) {
            Some(x) => r matches Some(y) && y@ == x,
            None => r is None,
        },
{
    match v.get(key) {
        Some(JsonValue::Null) => None,
        x => x,
    }
}

/// The error for network data that does not read.
pub open spec fn network_data_error(kind: Seq<char>, name: Seq<char>) -> Seq<char> {
    "failed to parse "@ + kind + " workload data for "@ + name + ": missing or invalid field"@
}

fn data_error(kind: &str, name: &str) -> (r: GridError)
    ensures
        is_validation(r, network_data_error(kind@, name@)),
{
    let m = String::from_str("failed to parse ").concat(kind).concat(" workload data for ").concat(name).concat(
        ": missing or invalid field",
    );
    GridError::Validation(m)
}

/// The map holding `key` at `node_id` when the key is not empty.
pub open spec fn keyed_when_nonempty(m: Map<u32, Vec<u8>>, node_id: u32, key: Seq<u8>) -> bool {
    &&& m.dom() == (if key.len() > 0 { set![node_id] } else { Set::empty() })
    &&& key.len() > 0 ==> m[node_id]@ == key
}

/// The network a network workload on `node_id` describes.
pub open spec fn znet_from(z: ZNet, wl: zos::Workload, node_id: u32, d: NetworkDataView, meta: NetworkMetaDataView) -> bool {
    let has_access = meta.user_accesses.len() > 0;
    let wg_access = has_access && meta.user_accesses[0].subnet.len() > 0;
    &&& z.name@ == wl.name@
    &&& z.description@ == wl.description@
    &&& z.nodes@ == seq![node_id]
    &&& z.ip_range@ == d.ip_range
    &&& z.add_wg_access == wg_access
    &&& (if wg_access { z.external_ip matches Some(ip) && ip@ == meta.user_accesses[0].subnet } else { z.external_ip is None })
    &&& z.external_sk@ == (if has_access { meta.user_accesses[0].private_key } else { Seq::empty() })
    &&& keyed_when_nonempty(z.mycelium_keys@, node_id, mycelium_key(d.mycelium))
    &&& z.solution_type@.len() == 0
    &&& z.access_wg_config@.len() == 0
    &&& z.public_node_id == (if has_access { meta.user_accesses[0].node_id } else { 0 })
    &&& z.nodes_ip_range@.dom() == set![node_id]
    &&& z.nodes_ip_range@[node_id]@ == d.subnet
    &&& z.node_deployment_id@ == Map::<u32, u64>::empty()
    &&& z.wg_port@ == (if d.wg_listen_port > 0 { map![node_id => d.wg_listen_port as i32] } else { Map::empty() })
    &&& z.keys@.dom() == (if d.wg_private_key.len() > 0 { set![node_id] } else { Set::empty() })
    &&& d.wg_private_key.len() > 0 ==> z.keys@[node_id]@ == d.wg_private_key
}

/// Reads a network back from its workload on `node_id`.
#[verifier::loop_isolation(false)]
pub fn new_network_from_workload(workload: &zos::Workload, node_id: u32) -> (r: Result<ZNet, GridError>)
    ensures
        workload.workload_type@ != zos::NETWORK_TYPE@ ==> (r matches Err(e) && is_validation(
            e,
            "workload is not a network workload"@,
        )),
        workload.workload_type@ == zos::NETWORK_TYPE@ ==> match network_data_of(workload.data@) {
            None => r matches Err(e) && is_validation(e, network_data_error("network"@, workload.name@)),
            Some(d) => match json_parse(workload.metadata@) {
                Err(m) => r matches Err(GridError::Codec(x)) && x@ == m,
                Ok(mv) => match network_metadata_of(mv) {
                    None => r matches Err(GridError::Codec(_)),
                    Some(meta) => if cidr_parts(d.ip_range) is None || cidr_parts(d.subnet) is None {
                        r matches Err(e) && is_validation(e, zos::cidr_error_message())
                    } else {
                        r matches Ok(z) && znet_from(z, *workload, node_id, d, normalized_view(meta))
                    },
                },
            },
        },
{
    if !str_eq(workload.workload_type.as_str(), zos::NETWORK_TYPE) {
        return Err(GridError::validation("workload is not a network workload"));
    }
    let data = &workload.data;
    let ip_range = get_text(data, "ip_range");
    let subnet = get_text(data, "subnet");
    let wg_key = read_text_field_or(data, "wireguard_private_key", "");
    let port: Option<u16> = match data.get("wireguard_listen_port") {
        None => Some(0),
        Some(x) => match x.as_u64() {
            Some(n) => if n <= 65535 {
                Some(n as u16)
            } else {
                None
            },
            None => None,
        },
    };
    proof {
        reveal_strlit("");
        assert(""@ =~= Seq::<char>::empty());
    }
    let (ip_range, subnet, wg_key, port) = match (ip_range, subnet, wg_key, port) {
        (Some(a), Some(b), Some(c), Some(d)) => (a, b, c, d),
        _ => return Err(data_error("network", workload.name.as_str())),
    };
    let mycelium = get_optional(data, "mycelium");
    let metadata = parse_network_metadata(workload.metadata.as_str())?;
    let ghost raw_meta = metadata_view(metadata);
    let metadata = metadata.normalized();
    proof {
        if raw_meta.user_accesses.len() == 0 && raw_meta.user_access_ip.len() != 0 {
            assert(metadata_view(metadata).user_accesses =~= normalized_view(raw_meta).user_accesses);
        }
        assert(metadata_view(metadata) == normalized_view(raw_meta));
    }
    let mut add_wg_access = false;
    let mut external_ip: Option<String> = None;
    let mut external_sk = String::new();
    let mut public_node_id: u32 = 0;
    if metadata.user_accesses.len() > 0 {
        if metadata.user_accesses[0].subnet.unicode_len() > 0 {
            add_wg_access = true;
            external_ip = Some(metadata.user_accesses[0].subnet.clone());
        }
        external_sk = metadata.user_accesses[0].private_key.clone();
        public_node_id = metadata.user_accesses[0].node_id;
    }
    let mut mycelium_keys: HashMap<u32, Vec<u8>> = HashMap::new();
    let key = read_mycelium_key(mycelium);
    if key.len() > 0 {
        mycelium_keys.insert(node_id, key);
    }
    let parsed_ip_range = zos::IPNet::parse(ip_range)?;
    let parsed_subnet = zos::IPNet::parse(subnet)?;
    if !str_eq(parsed_subnet.cidr.as_str(), subnet) {
        return Err(GridError::validation("invalid subnet"));
    }
    let mut nodes: Vec<u32> = Vec::new();
    nodes.push(node_id);
    let mut nodes_ip_range: HashMap<u32, String> = HashMap::new();
    nodes_ip_range.insert(node_id, parsed_subnet.cidr.clone());
    let mut wg_port: HashMap<u32, i32> = HashMap::new();
    if port > 0 {
        wg_port.insert(node_id, port as i32);
    }
    let mut keys: HashMap<u32, String> = HashMap::new();
    if wg_key.unicode_len() > 0 {
        keys.insert(node_id, wg_key);
    }
    let z = ZNet {
        name: workload.name.clone(),
        description: workload.description.clone(),
        nodes,
        ip_range: parsed_ip_range.cidr,
        add_wg_access,
        mycelium_keys,
        solution_type: String::new(),
        access_wg_config: String::new(),
        external_ip,
        external_sk,
        public_node_id,
        nodes_ip_range,
        node_deployment_id: HashMap::new(),
        wg_port,
        keys,
    };
    proof {
        assert(z.nodes@ =~= seq![node_id]);
        assert(z.nodes_ip_range@.dom() =~= set![node_id]);
        assert(z.mycelium_keys@.dom() =~= (if key@.len() > 0 { set![node_id] } else { Set::empty() }));
        assert(z.keys@.dom() =~= (if wg_key@.len() > 0 { set![node_id] } else { Set::empty() }));
        assert(z.wg_port@ =~= (if port > 0 { map![node_id => port as i32] } else { Map::empty() }));
        assert(z.external_sk@ =~= (if metadata_view(metadata).user_accesses.len() > 0 { metadata_view(metadata).user_accesses[0].private_key } else { Seq::empty() }));
    }
    Ok(z)
}

/// The light network a network-light workload on `node_id` describes.
pub open spec fn znet_light_from(z: ZNetLight, wl: zos::Workload, node_id: u32, subnet: Seq<char>, mycelium: Option<JsonModel>, meta: NetworkMetaDataView) -> bool {
    &&& z.name@ == wl.name@
    &&& z.description@ == wl.description@
    &&& z.nodes@ == seq![node_id]
    &&& z.solution_type@.len() == 0
    &&& z.ip_range@.len() == 0
    &&& z.nodes_ip_range@.dom() == set![node_id]
    &&& z.nodes_ip_range@[node_id]@ == subnet
    &&& z.node_deployment_id@ == Map::<u32, u64>::empty()
    &&& z.public_node_id == (if meta.user_accesses.len() > 0 { meta.user_accesses[0].node_id } else { 0 })
    &&& keyed_when_nonempty(z.mycelium_keys@, node_id, mycelium_key(mycelium))
}

/// Reads a light network back from its workload on `node_id`.
pub fn new_network_light_from_workload(workload: &zos::Workload, node_id: u32) -> (r: Result<ZNetLight, GridError>)
    ensures
        workload.workload_type@ != zos::NETWORK_LIGHT_TYPE@ ==> (r matches Err(e) && is_validation(
            e,
            "workload is not a network-light workload"@,
        )),
        workload.workload_type@ == zos::NETWORK_LIGHT_TYPE@ ==> match network_light_data_of(workload.data@) {
            None => r matches Err(e) && is_validation(e, network_data_error("network-light"@, workload.name@)),
            Some(d) => match json_parse(workload.metadata@) {
                Err(m) => r matches Err(GridError::Codec(x)) && x@ == m,
                Ok(mv) => match network_metadata_of(mv) {
                    None => r matches Err(GridError::Codec(_)),
                    Some(meta) => if cidr_parts(d.0) is None {
                        r matches Err(e) && is_validation(e, zos::cidr_error_message())
                    } else {
                        r matches Ok(z) && znet_light_from(z, *workload, node_id, d.0, d.1, normalized_view(meta))
                    },
                },
            },
        },
{
    if !str_eq(workload.workload_type.as_str(), zos::NETWORK_LIGHT_TYPE) {
        return Err(GridError::validation("workload is not a network-light workload"));
    }
    let data = &workload.data;
    let subnet = match get_text(data, "subnet") {
        Some(s) => s,
        None => return Err(data_error("network-light", workload.name.as_str())),
    };
    let mycelium = get_optional(data, "mycelium");
    let metadata = parse_network_metadata(workload.metadata.as_str())?;
    let ghost raw_meta = metadata_view(metadata);
    let metadata = metadata.normalized();
    proof {
        if raw_meta.user_accesses.len() == 0 && raw_meta.user_access_ip.len() != 0 {
            assert(metadata_view(metadata).user_accesses =~= normalized_view(raw_meta).user_accesses);
        }
        assert(metadata_view(metadata) == normalized_view(raw_meta));
    }
    let mut mycelium_keys: HashMap<u32, Vec<u8>> = HashMap::new();
    let key = read_mycelium_key(mycelium);
    if key.len() > 0 {
        mycelium_keys.insert(node_id, key);
    }
    let parsed_subnet = zos::IPNet::parse(subnet)?;
    let mut nodes_ip_range: HashMap<u32, String> = HashMap::new();
    nodes_ip_range.insert(node_id, parsed_subnet.cidr.clone());
    let public_node_id: u32 = if metadata.user_accesses.len() > 0 {
        metadata.user_accesses[0].node_id
    } else {
        0
    };
    let mut nodes: Vec<u32> = Vec::new();
    nodes.push(node_id);
    let z = ZNetLight {
        name: workload.name.clone(),
        description: workload.description.clone(),
        nodes,
        solution_type: String::new(),
        ip_range: String::new(),
        nodes_ip_range,
        node_deployment_id: HashMap::new(),
        public_node_id,
        mycelium_keys,
    };
    proof {
        assert(z.nodes@ =~= seq![node_id]);
        assert(z.nodes_ip_range@.dom() =~= set![node_id]);
        assert(z.mycelium_keys@.dom() =~= (if key@.len() > 0 { set![node_id] } else { Set::empty() }));
    }
    Ok(z)
}

} // verus!
