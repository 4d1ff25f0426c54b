//! The deployments the live client sends to a node, and the workloads it
//! builds for them.

use vstd::prelude::*;

use crate::codec::{hex_encode, hex_text, random_bytes};
use crate::env_vars::EnvVars;
use crate::json::{
    item_models, json_text, lemma_item_models_push, member_models, object_push, to_json_string, JsonModel,
    JsonNumber, JsonValue,
};
use crate::live::types::{VmLightMount, VmLightSpec, VmSpec, VolumeMountSpec};
use crate::workloads::{construct_public_ip_workload, env_model, num, public_ip_workload, VERSION4};
use crate::zos;
use crate::zos::{ResultData, ResultDataView, SignatureRequest};

verus! {

/// A workload as the live client sends it.
#[derive(Debug)]
pub struct DeployWorkload {
    pub version: u32,
    pub name: String,
    pub workload_type: String,
    pub data: JsonValue,
    pub metadata: String,
    pub description: String,
    pub result: ResultData,
}

/// The mathematical content of a [`DeployWorkload`].
pub struct DeployWorkloadView {
    pub version: u32,
    pub name: Seq<char>,
    pub workload_type: Seq<char>,
    pub data: JsonModel,
    pub metadata: Seq<char>,
    pub description: Seq<char>,
    pub result: ResultDataView,
}

impl View for DeployWorkload {
    type V = DeployWorkloadView;

    open spec fn view(&self) -> DeployWorkloadView {
        DeployWorkloadView {
            version: self.version,
            name: self.name@,
            workload_type: self.workload_type@,
            data: self.data@,
            metadata: self.metadata@,
            description: self.description@,
            result: self.result@,
        }
    }
}

/// The views of a sequence of workloads.
pub open spec fn deploy_views(ws: Seq<DeployWorkload>) -> Seq<DeployWorkloadView> {
    ws.map_values(|w: DeployWorkload| w@)
}

/// A signature attached to a deployment.
#[derive(Debug)]
pub struct Signature {
    pub twin_id: u32,
    pub signature: String,
    pub signature_type: String,
}

/// The signers a deployment asks for and the signatures it carries.
#[derive(Debug)]
pub struct DeploySignatureRequirement {
    pub requests: Vec<SignatureRequest>,
    pub weight_required: u32,
    pub signatures: Vec<Signature>,
    pub signature_style: String,
}

/// A deployment as the live client sends it.
#[derive(Debug)]
pub struct DeployDeployment {
    pub version: u32,
    pub twin_id: u32,
    pub contract_id: u64,
    pub metadata: String,
    pub description: String,
    pub expiration: i64,
    pub signature_requirement: DeploySignatureRequirement,
    pub workloads: Vec<DeployWorkload>,
}

impl DeployDeployment {
    /// A deployment of `workloads` by `twin_id`, which it asks to sign with
    /// weight 1 (not marked required), with no contract yet.
    pub fn new(twin_id: u32, metadata: String, workloads: Vec<DeployWorkload>) -> (r: DeployDeployment)
        ensures
            r.version == 0,
            r.twin_id == twin_id,
            r.contract_id == 0,
            r.metadata == metadata,
            r.description@.len() == 0,
            r.expiration == 0,
            r.signature_requirement.requests@ == seq![SignatureRequest { twin_id, required: false, weight: 1 }],
            r.signature_requirement.weight_required == 1,
            r.signature_requirement.signatures@.len() == 0,
            r.signature_requirement.signature_style@.len() == 0,
            r.workloads == workloads,
    {
        let mut requests: Vec<SignatureRequest> = Vec::new();
        requests.push(SignatureRequest { twin_id, required: false, weight: 1 });
        assert(requests@ =~= seq![SignatureRequest { twin_id, required: false, weight: 1 }]);
        DeployDeployment {
            version: 0,
            twin_id,
            contract_id: 0,
            metadata,
            description: String::new(),
            expiration: 0,
            signature_requirement: DeploySignatureRequirement {
                requests,
                weight_required: 1,
                signatures: Vec::new(),
                signature_style: String::new(),
            },
            workloads,
        }
    }
}

/// The result a workload is sent with: all empty.
pub open spec fn empty_result() -> ResultDataView {
    ResultDataView { created: 0, state: Seq::empty(), error: Seq::empty(), data: JsonModel::Null }
}

/// An empty result.
pub fn empty_result_data() -> (r: ResultData)
    ensures
        r@ == empty_result(),
{
    ResultData { created: 0, state: String::new(), error: String::new(), data: JsonValue::Null }
}

/// The workload with these contents, version 0 and an empty result.
pub open spec fn sent_workload(name: Seq<char>, kind: Seq<char>, data: JsonModel, metadata: Seq<char>, description: Seq<char>) -> DeployWorkloadView {
    DeployWorkloadView { version: 0, name, workload_type: kind, data, metadata, description, result: empty_result() }
}

fn sent(name: String, kind: &str, data: JsonValue, metadata: String, description: String) -> (r: DeployWorkload)
    ensures
        r@ == sent_workload(name@, kind@, data@, metadata@, description@),
{
    DeployWorkload {
        version: 0,
        name,
        workload_type: String::from_str(kind),
        data,
        metadata,
        description,
        result: empty_result_data(),
    }
}

/// A zos workload as sent: every field kept.
pub fn from_zos_workload(workload: zos::Workload) -> (r: DeployWorkload)
    ensures
        r@ == (DeployWorkloadView {
            version: workload.version,
            name: workload.name@,
            workload_type: workload.workload_type@,
            data: workload.data@,
            metadata: workload.metadata@,
            description: workload.description@,
            result: workload.result@,
        }),
{
    DeployWorkload {
        version: workload.version,
        name: workload.name,
        workload_type: workload.workload_type,
        data: workload.data,
        metadata: workload.metadata,
        description: workload.description,
        result: workload.result,
    }
}

/// The data of a volume workload of `size_bytes`.
pub open spec fn volume_data(size_bytes: u64) -> JsonModel {
    JsonModel::Object(seq![("size"@, num(size_bytes))])
}

/// A volume workload.
pub fn build_volume_workload(name: &str, size_bytes: u64, description: &str) -> (r: DeployWorkload)
    ensures
        r@ == sent_workload(name@, zos::VOLUME_TYPE@, volume_data(size_bytes), Seq::empty(), description@),
{
    let mut m: Vec<(String, JsonValue)> = Vec::new();
    object_push(&mut m, "size", JsonValue::Number(JsonNumber::PosInt(size_bytes)));
    assert(member_models(m@) =~= seq![("size"@, num(size_bytes))]);
    sent(String::from_str(name), zos::VOLUME_TYPE, JsonValue::Object(m), String::new(), String::from_str(description))
}

/// The metadata text of a network workload: version 4 and no user accesses.
pub open spec fn network_metadata_text() -> Seq<char> {
    json_text(JsonModel::Object(seq![("version"@, num(VERSION4 as u64)), ("user_accesses"@, JsonModel::Null)]))
}

fn network_metadata() -> (r: String)
    ensures
        r@ == network_metadata_text(),
{
    let mut m: Vec<(String, JsonValue)> = Vec::new();
    object_push(&mut m, "version", JsonValue::Number(JsonNumber::PosInt(4)));
    object_push(&mut m, "user_accesses", JsonValue::Null);
    assert(member_models(m@) =~= seq![("version"@, num(VERSION4 as u64)), ("user_accesses"@, JsonModel::Null)]);
    to_json_string(&JsonValue::Object(m))
}

/// The mycelium data of a network: its key in hex (no peers).
pub open spec fn mycelium_data(key: Seq<u8>) -> JsonModel {
    JsonModel::Object(seq![("hex_key"@, JsonModel::Str(hex_text(key)))])
}

fn mycelium_value(key: &Vec<u8>) -> (r: JsonValue)
    ensures
        r@ == mycelium_data(key@),
{
    let mut m: Vec<(String, JsonValue)> = Vec::new();
    object_push(&mut m, "hex_key", JsonValue::String(hex_encode(key.as_slice())));
    assert(member_models(m@) =~= seq![("hex_key"@, JsonModel::Str(hex_text(key@)))]);
    JsonValue::Object(m)
}

/// The data of a network-light workload.
pub open spec fn network_light_data(subnet: Seq<char>, key: Seq<u8>) -> JsonModel {
    JsonModel::Object(seq![("subnet"@, JsonModel::Str(subnet)), ("mycelium"@, mycelium_data(key))])
}

/// A network-light workload on `subnet` with the mycelium key `key`.
pub fn build_network_light(name: &str, subnet: &str, mycelium_key: Vec<u8>) -> (r: DeployWorkload)
    ensures
        r@ == sent_workload(
            name@,
            zos::NETWORK_LIGHT_TYPE@,
            network_light_data(subnet@, mycelium_key@),
            network_metadata_text(),
            "network to deploy vm with mycelium"@,
        ),
{
    let mut m: Vec<(String, JsonValue)> = Vec::new();
    object_push(&mut m, "subnet", JsonValue::String(String::from_str(subnet)));
    object_push(&mut m, "mycelium", mycelium_value(&mycelium_key));
    assert(member_models(m@) =~= seq![("subnet"@, JsonModel::Str(subnet@)), ("mycelium"@, mycelium_data(mycelium_key@))]);
    sent(
        String::from_str(name),
        zos::NETWORK_LIGHT_TYPE,
        JsonValue::Object(m),
        network_metadata(),
        String::from_str("network to deploy vm with mycelium"),
    )
}

/// The data of a full network workload; the mycelium member is there only
/// with a key.
pub open spec fn network_data(ip_range: Seq<char>, subnet: Seq<char>, wg_key: Seq<char>, port: u16, key: Option<Seq<u8>>) -> JsonModel {
    let base = seq![
        ("ip_range"@, JsonModel::Str(ip_range)),
        ("subnet"@, JsonModel::Str(subnet)),
        ("wireguard_private_key"@, JsonModel::Str(wg_key)),
        ("wireguard_listen_port"@, num(port as u64)),
        ("peers"@, JsonModel::Array(Seq::empty())),
    ];
    JsonModel::Object(
        match key {
            Some(k) => base.push(("mycelium"@, mycelium_data(k))),
            None => base,
        },
    )
}

/// A full network workload.
pub fn build_network(
    name: &str,
    ip_range: &str,
    subnet: &str,
    wireguard_private_key: String,
    wireguard_listen_port: u16,
    mycelium_key: Option<Vec<u8>>,
) -> (r: DeployWorkload)
    ensures
        r@ == sent_workload(
            name@,
            zos::NETWORK_TYPE@,
            network_data(
                ip_range@,
                subnet@,
                wireguard_private_key@,
                wireguard_listen_port,
                match mycelium_key {
                    Some(k) => Some(k@),
                    None => None,
                },
            ),
            network_metadata_text(),
            "network to deploy vm"@,
        ),
{
    let ghost key_view = match &mycelium_key {
        Some(k) => Some(k@),
        None => None,
    };
    let mut m: Vec<(String, JsonValue)> = Vec::new();
    object_push(&mut m, "ip_range", JsonValue::String(String::from_str(ip_range)));
    object_push(&mut m, "subnet", JsonValue::String(String::from_str(subnet)));
    object_push(&mut m, "wireguard_private_key", JsonValue::String(wireguard_private_key));
    object_push(&mut m, "wireguard_listen_port", JsonValue::Number(JsonNumber::PosInt(wireguard_listen_port as u64)));
    let peers: Vec<JsonValue> = Vec::new();
    assert(item_models(peers@) =~= Seq::<JsonModel>::empty());
    object_push(&mut m, "peers", JsonValue::Array(peers));
    let ghost base = seq![
        ("ip_range"@, JsonModel::Str(ip_range@)),
        ("subnet"@, JsonModel::Str(subnet@)),
        ("wireguard_private_key"@, JsonModel::Str(wireguard_private_key@)),
        ("wireguard_listen_port"@, num(wireguard_listen_port as u64)),
        ("peers"@, JsonModel::Array(Seq::empty())),
    ];
    assert(member_models(m@) =~= base);
    match mycelium_key {
        Some(k) => {
            object_push(&mut m, "mycelium", mycelium_value(&k));
            assert(member_models(m@) =~= base.push(("mycelium"@, mycelium_data(k@))));
        },
        None => {},
    }
    assert(JsonModel::Object(member_models(m@)) == network_data(
        ip_range@,
        subnet@,
        wireguard_private_key@,
        wireguard_listen_port,
        key_view,
    ));
    sent(
        String::from_str(name),
        zos::NETWORK_TYPE,
        JsonValue::Object(m),
        network_metadata(),
        String::from_str("network to deploy vm"),
    )
}

// ---------------------------------------------------------------------------
// Machines
// ---------------------------------------------------------------------------

/// One mount of a machine.
pub open spec fn mount_model(name: Seq<char>, mountpoint: Seq<char>) -> JsonModel {
    JsonModel::Object(seq![("name"@, JsonModel::Str(name)), ("mountpoint"@, JsonModel::Str(mountpoint))])
}

fn mount_value(name: &String, mountpoint: &String) -> (r: JsonValue)
    ensures
        r@ == mount_model(name@, mountpoint@),
{
    let mut m: Vec<(String, JsonValue)> = Vec::new();
    object_push(&mut m, "name", JsonValue::String(name.clone()));
    object_push(&mut m, "mountpoint", JsonValue::String(mountpoint.clone()));
    assert(member_models(m@) =~= seq![("name"@, JsonModel::Str(name@)), ("mountpoint"@, JsonModel::Str(mountpoint@))]);
    JsonValue::Object(m)
}

/// The mounts of the volumes a machine creates.
pub open spec fn volume_mounts(vs: Seq<VolumeMountSpec>) -> Seq<JsonModel> {
    vs.map_values(|v: VolumeMountSpec| mount_model(v.name@, v.mountpoint@))
}

/// The mounts of disks given to a light machine.
pub open spec fn light_mounts(ms: Seq<VmLightMount>) -> Seq<JsonModel> {
    ms.map_values(|m: VmLightMount| mount_model(m.name@, m.mountpoint@))
}

fn push_volume_mounts(items: &mut Vec<JsonValue>, vs: &Vec<VolumeMountSpec>)
    ensures
        item_models(final(items)@) == item_models(old(items)@) + volume_mounts(vs@),
{
    let ghost start = item_models(items@);
    let mut i: usize = 0;
    while i < vs.len()
        invariant
            i <= vs@.len(),
            item_models(items@) == start + volume_mounts(vs@.take(i as int)),
        decreases vs.len() - i,
    {
        let x = mount_value(&vs[i].name, &vs[i].mountpoint);
        proof {
            lemma_item_models_push(items@, x);
            assert(volume_mounts(vs@.take(i + 1)) =~= volume_mounts(vs@.take(i as int)).push(x@));
        }
        items.push(x);
        i = i + 1;
    }
    assert(vs@.take(vs@.len() as int) =~= vs@);
}

fn push_light_mounts(items: &mut Vec<JsonValue>, ms: &Vec<VmLightMount>)
    ensures
        item_models(final(items)@) == item_models(old(items)@) + light_mounts(ms@),
{
    let ghost start = item_models(items@);
    let mut i: usize = 0;
    while i < ms.len()
        invariant
            i <= ms@.len(),
            item_models(items@) == start + light_mounts(ms@.take(i as int)),
        decreases ms.len() - i,
    {
        let x = mount_value(&ms[i].name, &ms[i].mountpoint);
        proof {
            lemma_item_models_push(items@, x);
            assert(light_mounts(ms@.take(i + 1)) =~= light_mounts(ms@.take(i as int)).push(x@));
        }
        items.push(x);
        i = i + 1;
    }
    assert(ms@.take(ms@.len() as int) =~= ms@);
}

/// String items.
pub open spec fn string_items(v: Seq<String>) -> Seq<JsonModel> {
    v.map_values(|s: String| JsonModel::Str(s@))
}

fn strings_value(v: &Vec<String>) -> (r: JsonValue)
    ensures
        r@ == JsonModel::Array(string_items(v@)),
{
    let mut items: Vec<JsonValue> = Vec::new();
    let mut i: usize = 0;
    while i < v.len()
        invariant
            i <= v@.len(),
            item_models(items@) == string_items(v@.take(i as int)),
        decreases v.len() - i,
    {
        let x = JsonValue::String(v[i].clone());
        proof {
            lemma_item_models_push(items@, x);
            assert(string_items(v@.take(i + 1)) =~= string_items(v@.take(i as int)).push(x@));
        }
        items.push(x);
        i = i + 1;
    }
    assert(v@.take(v@.len() as int) =~= v@);
    JsonValue::Array(items)
}

fn env_object(env: &EnvVars) -> (r: JsonValue)
    ensures
        r@ == JsonModel::Object(env_model(*env)),
{
    let mut m: Vec<(String, JsonValue)> = Vec::new();
    let n = env.len();
    let mut i: usize = 0;
    while i < n
        invariant
            n == env.entry_seq().len(),
            i <= n,
            member_models(m@) == env_model(*env).take(i as int),
        decreases n - i,
    {
        let (k, v) = env.entry(i);
        object_push(&mut m, k.as_str(), JsonValue::String(v.clone()));
        assert(env_model(*env).take(i + 1) =~= env_model(*env).take(i as int).push(env_model(*env)[i as int]));
        i = i + 1;
    }
    assert(env_model(*env).take(n as int) =~= env_model(*env));
    JsonValue::Object(m)
}

/// The mycelium address data of a machine: the network and the seed in hex.
pub open spec fn mycelium_ip_data(network: Seq<char>, seed: Seq<u8>) -> JsonModel {
    JsonModel::Object(seq![("network"@, JsonModel::Str(network)), ("hex_seed"@, JsonModel::Str(hex_text(seed)))])
}

fn mycelium_ip_value(network: &str, seed: &Vec<u8>) -> (r: JsonValue)
    ensures
        r@ == mycelium_ip_data(network@, seed@),
{
    let mut m: Vec<(String, JsonValue)> = Vec::new();
    object_push(&mut m, "network", JsonValue::String(String::from_str(network)));
    object_push(&mut m, "hex_seed", JsonValue::String(hex_encode(seed.as_slice())));
    assert(member_models(m@) =~= seq![("network"@, JsonModel::Str(network@)), ("hex_seed"@, JsonModel::Str(hex_text(seed@)))]);
    JsonValue::Object(m)
}

/// The single interface of a machine.
pub open spec fn interfaces_data(network: Seq<char>, ip: Seq<char>) -> JsonModel {
    JsonModel::Array(seq![JsonModel::Object(seq![("network"@, JsonModel::Str(network)), ("ip"@, JsonModel::Str(ip))])])
}

fn interfaces_value(network: &str, ip: &str) -> (r: JsonValue)
    ensures
        r@ == interfaces_data(network@, ip@),
{
    let mut m: Vec<(String, JsonValue)> = Vec::new();
    object_push(&mut m, "network", JsonValue::String(String::from_str(network)));
    object_push(&mut m, "ip", JsonValue::String(String::from_str(ip)));
    assert(member_models(m@) =~= seq![("network"@, JsonModel::Str(network@)), ("ip"@, JsonModel::Str(ip@))]);
    let x = JsonValue::Object(m);
    let mut items: Vec<JsonValue> = Vec::new();
    proof {
        lemma_item_models_push(items@, x);
    }
    items.push(x);
    assert(item_models(items@) =~= seq![x@]);
    JsonValue::Array(items)
}

fn capacity_value(cpu: u8, memory: u64) -> (r: JsonValue)
    ensures
        r@ == JsonModel::Object(seq![("cpu"@, num(cpu as u64)), ("memory"@, num(memory))]),
{
    let mut m: Vec<(String, JsonValue)> = Vec::new();
    object_push(&mut m, "cpu", JsonValue::Number(JsonNumber::PosInt(cpu as u64)));
    object_push(&mut m, "memory", JsonValue::Number(JsonNumber::PosInt(memory)));
    assert(member_models(m@) =~= seq![("cpu"@, num(cpu as u64)), ("memory"@, num(memory))]);
    JsonValue::Object(m)
}

/// The members that follow the network member in machine data: size,
/// capacity, mounts, entrypoint, environment, corex, and the GPUs when
/// there are any.
pub open spec fn machine_tail(
    size: u64,
    cpu: u8,
    memory: u64,
    mounts: Seq<JsonModel>,
    entrypoint: Seq<char>,
    env: EnvVars,
    corex: bool,
    gpu: Seq<String>,
) -> Seq<(Seq<char>, JsonModel)> {
    let base = seq![
        ("size"@, num(size)),
        ("compute_capacity"@, JsonModel::Object(seq![("cpu"@, num(cpu as u64)), ("memory"@, num(memory))])),
        ("mounts"@, JsonModel::Array(mounts)),
        ("entrypoint"@, JsonModel::Str(entrypoint)),
        ("env"@, JsonModel::Object(env_model(env))),
        ("corex"@, JsonModel::Bool(corex)),
    ];
    if gpu.len() > 0 {
        base.push(("gpu"@, JsonModel::Array(string_items(gpu))))
    } else {
        base
    }
}

fn push_machine_tail(
    m: &mut Vec<(String, JsonValue)>,
    size: u64,
    cpu: u8,
    memory: u64,
    mounts: Vec<JsonValue>,
    entrypoint: &String,
    env: &EnvVars,
    corex: bool,
    gpu: &Vec<String>,
)
    ensures
        member_models(final(m)@) == member_models(old(m)@) + machine_tail(
            size,
            cpu,
            memory,
            item_models(mounts@),
            entrypoint@,
            *env,
            corex,
            gpu@,
        ),
{
    let ghost start = member_models(m@);
    let ghost mounts_model = item_models(mounts@);
    object_push(m, "size", JsonValue::Number(JsonNumber::PosInt(size)));
    object_push(m, "compute_capacity", capacity_value(cpu, memory));
    object_push(m, "mounts", JsonValue::Array(mounts));
    object_push(m, "entrypoint", JsonValue::String(entrypoint.clone()));
    object_push(m, "env", env_object(env));
    object_push(m, "corex", JsonValue::Bool(corex));
    if gpu.len() > 0 {
        object_push(m, "gpu", strings_value(gpu));
    }
    assert(member_models(m@) =~= start + machine_tail(size, cpu, memory, mounts_model, entrypoint@, *env, corex, gpu@));
}

/// The data of a zmachine-light workload.
pub open spec fn machine_light_data(network_name: Seq<char>, ip: Seq<char>, seed: Seq<u8>, spec: VmLightSpec) -> JsonModel {
    JsonModel::Object(
        seq![
            ("flist"@, JsonModel::Str(spec.flist@)),
            ("network"@, JsonModel::Object(seq![
                ("mycelium"@, mycelium_ip_data(network_name, seed)),
                ("interfaces"@, interfaces_data(network_name, ip)),
            ])),
        ] + machine_tail(
            spec.rootfs_size_bytes,
            spec.cpu,
            spec.memory_bytes,
            volume_mounts(spec.volumes@) + light_mounts(spec.mounts@),
            spec.entrypoint@,
            spec.env,
            spec.corex,
            spec.gpu@,
        ),
    )
}

/// The workloads of a light VM with mycelium seed `seed`: one volume
/// workload per volume, then the zmachine-light.
pub open spec fn vm_light_workloads(name: Seq<char>, network_name: Seq<char>, ip: Seq<char>, seed: Seq<u8>, spec: VmLightSpec) -> Seq<DeployWorkloadView> {
    spec.volumes@.map_values(
        |v: VolumeMountSpec| sent_workload(v.name@, zos::VOLUME_TYPE@, volume_data(v.size_bytes), Seq::empty(), v.description@),
    ).push(sent_workload(name, zos::ZMACHINE_LIGHT_TYPE@, machine_light_data(network_name, ip, seed, spec), Seq::empty(), Seq::empty()))
}

fn push_volume_workloads(out: &mut Vec<DeployWorkload>, volumes: &Vec<VolumeMountSpec>)
    ensures
        deploy_views(final(out)@) == deploy_views(old(out)@) + volumes@.map_values(
            |v: VolumeMountSpec| sent_workload(v.name@, zos::VOLUME_TYPE@, volume_data(v.size_bytes), Seq::empty(), v.description@),
        ),
{
    let ghost start = deploy_views(out@);
    let mut i: usize = 0;
    while i < volumes.len()
        invariant
            i <= volumes@.len(),
            deploy_views(out@) == start + volumes@.take(i as int).map_values(
                |v: VolumeMountSpec| sent_workload(v.name@, zos::VOLUME_TYPE@, volume_data(v.size_bytes), Seq::empty(), v.description@),
            ),
        decreases volumes.len() - i,
    {
        let w = build_volume_workload(volumes[i].name.as_str(), volumes[i].size_bytes, volumes[i].description.as_str());
        let ghost before = out@;
        out.push(w);
        assert(deploy_views(out@) =~= deploy_views(before).push(w@));
        assert(volumes@.take(i + 1).map_values(
            |v: VolumeMountSpec| sent_workload(v.name@, zos::VOLUME_TYPE@, volume_data(v.size_bytes), Seq::empty(), v.description@),
        ) =~= volumes@.take(i as int).map_values(
            |v: VolumeMountSpec| sent_workload(v.name@, zos::VOLUME_TYPE@, volume_data(v.size_bytes), Seq::empty(), v.description@),
        ).push(w@));
        i = i + 1;
    }
    assert(volumes@.take(volumes@.len() as int) =~= volumes@);
}

/// The workloads of a light VM with the mycelium seed `seed`.
pub fn build_vm_light_with_seed(name: &str, network_name: &str, ip: &str, spec: &VmLightSpec, seed: Vec<u8>) -> (r: Vec<DeployWorkload>)
    ensures
        deploy_views(r@) == vm_light_workloads(name@, network_name@, ip@, seed@, *spec),
{
    let mut workloads: Vec<DeployWorkload> = Vec::new();
    push_volume_workloads(&mut workloads, &spec.volumes);
    let mut net: Vec<(String, JsonValue)> = Vec::new();
    object_push(&mut net, "mycelium", mycelium_ip_value(network_name, &seed));
    object_push(&mut net, "interfaces", interfaces_value(network_name, ip));
    let mut mounts: Vec<JsonValue> = Vec::new();
    assert(item_models(mounts@) =~= Seq::<JsonModel>::empty());
    push_volume_mounts(&mut mounts, &spec.volumes);
    push_light_mounts(&mut mounts, &spec.mounts);
    assert(item_models(mounts@) =~= volume_mounts(spec.volumes@) + light_mounts(spec.mounts@));
    let mut m: Vec<(String, JsonValue)> = Vec::new();
    object_push(&mut m, "flist", JsonValue::String(spec.flist.clone()));
    assert(member_models(net@) =~= seq![
        ("mycelium"@, mycelium_ip_data(network_name@, seed@)),
        ("interfaces"@, interfaces_data(network_name@, ip@)),
    ]);
    object_push(&mut m, "network", JsonValue::Object(net));
    let ghost head = seq![
        ("flist"@, JsonModel::Str(spec.flist@)),
        ("network"@, JsonModel::Object(seq![
            ("mycelium"@, mycelium_ip_data(network_name@, seed@)),
            ("interfaces"@, interfaces_data(network_name@, ip@)),
        ])),
    ];
    assert(member_models(m@) =~= head);
    let ghost mm = item_models(mounts@);
    push_machine_tail(&mut m, spec.rootfs_size_bytes, spec.cpu, spec.memory_bytes, mounts, &spec.entrypoint, &spec.env, spec.corex, &spec.gpu);
    assert(member_models(m@) =~= head + machine_tail(
        spec.rootfs_size_bytes,
        spec.cpu,
        spec.memory_bytes,
        volume_mounts(spec.volumes@) + light_mounts(spec.mounts@),
        spec.entrypoint@,
        spec.env,
        spec.corex,
        spec.gpu@,
    ));
    assert(JsonValue::Object(m)@ == machine_light_data(network_name@, ip@, seed@, *spec));
    let machine = sent(String::from_str(name), zos::ZMACHINE_LIGHT_TYPE, JsonValue::Object(m), String::new(), String::new());
    let ghost before = workloads@;
    workloads.push(machine);
    assert(deploy_views(workloads@) =~= deploy_views(before).push(machine@));
    workloads
}

/// The workloads of a light VM: its own mycelium seed when it has one, else
/// a fresh random one of [`zos::MYCELIUM_IP_SEED_LEN`] bytes.
pub fn build_vm_light(name: &str, network_name: &str, ip: &str, spec: &VmLightSpec) -> (r: Vec<DeployWorkload>)
    ensures
        match spec.mycelium_seed {
            Some(seed) => deploy_views(r@) == vm_light_workloads(name@, network_name@, ip@, seed@, *spec),
            None => exists|seed: Seq<u8>|
                seed.len() == zos::MYCELIUM_IP_SEED_LEN && deploy_views(r@) == #[trigger] vm_light_workloads(
                    name@,
                    network_name@,
                    ip@,
                    seed,
                    *spec,
                ),
        },
{
    let seed = match &spec.mycelium_seed {
        Some(s) => vstd::slice::slice_to_vec(s.as_slice()),
        None => random_bytes(zos::MYCELIUM_IP_SEED_LEN),
    };
    build_vm_light_with_seed(name, network_name, ip, spec, seed)
}

/// The data of a zmachine workload.
pub open spec fn machine_data(network_name: Seq<char>, ip: Seq<char>, public_ip_name: Seq<char>, spec: VmSpec) -> JsonModel {
    let net_head = seq![("public_ip"@, JsonModel::Str(public_ip_name)), ("planetary"@, JsonModel::Bool(spec.planetary))];
    let net_myc = match spec.mycelium_seed {
        Some(seed) => net_head.push(("mycelium"@, mycelium_ip_data(network_name, seed@))),
        None => net_head,
    };
    JsonModel::Object(
        seq![
            ("flist"@, JsonModel::Str(spec.flist@)),
            ("network"@, JsonModel::Object(net_myc.push(("interfaces"@, interfaces_data(network_name, ip))))),
        ] + machine_tail(
            spec.rootfs_size_bytes,
            spec.cpu,
            spec.memory_bytes,
            volume_mounts(spec.volumes@),
            spec.entrypoint@,
            spec.env,
            spec.corex,
            spec.gpu@,
        ),
    )
}

/// The name of a VM's public IP workload: the VM name and `ip`, or empty
/// when it asks for no public address.
pub open spec fn public_ip_name(name: Seq<char>, spec: VmSpec) -> Seq<char> {
    if spec.public_ipv4 || spec.public_ipv6 {
        name + "ip"@
    } else {
        Seq::empty()
    }
}

/// The workloads of a full VM: its public IP workload when it asks for a
/// public address, one volume workload per volume, then the zmachine.
pub open spec fn vm_workloads(name: Seq<char>, network_name: Seq<char>, ip: Seq<char>, spec: VmSpec) -> Seq<DeployWorkloadView> {
    let public = public_ip_workload(public_ip_name(name, spec), spec.public_ipv4, spec.public_ipv6);
    let head = if spec.public_ipv4 || spec.public_ipv6 {
        seq![
            DeployWorkloadView {
                version: public.version,
                name: public.name,
                workload_type: public.workload_type,
                data: public.data,
                metadata: public.metadata,
                description: public.description,
                result: public.result,
            },
        ]
    } else {
        Seq::empty()
    };
    (head + spec.volumes@.map_values(
        |v: VolumeMountSpec| sent_workload(v.name@, zos::VOLUME_TYPE@, volume_data(v.size_bytes), Seq::empty(), v.description@),
    )).push(
        sent_workload(name, zos::ZMACHINE_TYPE@, machine_data(network_name, ip, public_ip_name(name, spec), spec), Seq::empty(), Seq::empty()),
    )
}

/// The workloads of a full VM.
pub fn build_vm(name: &str, network_name: &str, ip: &str, spec: &VmSpec) -> (r: Vec<DeployWorkload>)
    ensures
        deploy_views(r@) == vm_workloads(name@, network_name@, ip@, *spec),
{
    let public_name = if spec.public_ipv4 || spec.public_ipv6 {
        String::from_str(name).concat("ip")
    } else {
        String::new()
    };
    let mut workloads: Vec<DeployWorkload> = Vec::new();
    if public_name.unicode_len() > 0 {
        workloads.push(from_zos_workload(construct_public_ip_workload(public_name.as_str(), spec.public_ipv4, spec.public_ipv6)));
    }
    proof {
        reveal_strlit("ip");
        assert(public_name@.len() > 0 <==> (spec.public_ipv4 || spec.public_ipv6));
    }
    assert(deploy_views(workloads@) =~= if spec.public_ipv4 || spec.public_ipv6 {
        let public = public_ip_workload(public_ip_name(name@, *spec), spec.public_ipv4, spec.public_ipv6);
        seq![
            DeployWorkloadView {
                version: public.version,
                name: public.name,
                workload_type: public.workload_type,
                data: public.data,
                metadata: public.metadata,
                description: public.description,
                result: public.result,
            },
        ]
    } else {
        Seq::empty()
    });
    push_volume_workloads(&mut workloads, &spec.volumes);
    let mut net: Vec<(String, JsonValue)> = Vec::new();
    object_push(&mut net, "public_ip", JsonValue::String(public_name.clone()));
    object_push(&mut net, "planetary", JsonValue::Bool(spec.planetary));
    let ghost net_head = seq![("public_ip"@, JsonModel::Str(public_name@)), ("planetary"@, JsonModel::Bool(spec.planetary))];
    assert(member_models(net@) =~= net_head);
    match &spec.mycelium_seed {
        Some(seed) => {
            object_push(&mut net, "mycelium", mycelium_ip_value(network_name, seed));
        },
        None => {},
    }
    let ghost net_myc = match &spec.mycelium_seed {
        Some(seed) => net_head.push(("mycelium"@, mycelium_ip_data(network_name@, seed@))),
        None => net_head,
    };
    assert(member_models(net@) =~= net_myc);
    object_push(&mut net, "interfaces", interfaces_value(network_name, ip));
    assert(member_models(net@) =~= net_myc.push(("interfaces"@, interfaces_data(network_name@, ip@))));
    let mut mounts: Vec<JsonValue> = Vec::new();
    assert(item_models(mounts@) =~= Seq::<JsonModel>::empty());
    push_volume_mounts(&mut mounts, &spec.volumes);
    assert(item_models(mounts@) =~= volume_mounts(spec.volumes@));
    let mut m: Vec<(String, JsonValue)> = Vec::new();
    object_push(&mut m, "flist", JsonValue::String(spec.flist.clone()));
    object_push(&mut m, "network", JsonValue::Object(net));
    let ghost head = seq![
        ("flist"@, JsonModel::Str(spec.flist@)),
        ("network"@, JsonModel::Object(net_myc.push(("interfaces"@, interfaces_data(network_name@, ip@))))),
    ];
    assert(member_models(m@) =~= head);
    push_machine_tail(&mut m, spec.rootfs_size_bytes, spec.cpu, spec.memory_bytes, mounts, &spec.entrypoint, &spec.env, spec.corex, &spec.gpu);
    assert(member_models(m@) =~= head + machine_tail(
        spec.rootfs_size_bytes,
        spec.cpu,
        spec.memory_bytes,
        volume_mounts(spec.volumes@),
        spec.entrypoint@,
        spec.env,
        spec.corex,
        spec.gpu@,
    ));
    assert(JsonValue::Object(m)@ == machine_data(network_name@, ip@, public_name@, *spec));
    let machine = sent(String::from_str(name), zos::ZMACHINE_TYPE, JsonValue::Object(m), String::new(), String::new());
    let ghost before = workloads@;
    workloads.push(machine);
    assert(deploy_views(workloads@) =~= deploy_views(before).push(machine@));
    workloads
}

/// The number of public IP workloads among `workloads`.
pub open spec fn public_ips_in(ws: Seq<DeployWorkloadView>) -> nat
    decreases ws.len(),
{
    if ws.len() == 0 {
        0
    } else {
        public_ips_in(ws.drop_last()) + if ws.last().workload_type == zos::PUBLIC_IP_TYPE@ {
            1nat
        } else {
            0nat
        }
    }
}

/// How many of `workloads` are public IP workloads (as a `u32`, wrapping).
pub fn public_ip_count(workloads: &[DeployWorkload]) -> (r: u32)
    ensures
        r == public_ips_in(deploy_views(workloads@)) as u32,
{
    let mut count: usize = 0;
    let mut i: usize = 0;
    while i < workloads.len()
        invariant
            i <= workloads@.len(),
            count == public_ips_in(deploy_views(workloads@.take(i as int))),
            count <= i,
        decreases workloads.len() - i,
    {
        proof {
            assert(deploy_views(workloads@.take(i + 1)).drop_last() =~= deploy_views(workloads@.take(i as int)));
        }
        if crate::text::str_eq(workloads[i].workload_type.as_str(), zos::PUBLIC_IP_TYPE) {
            count = count + 1;
        }
        i = i + 1;
    }
    assert(workloads@.take(workloads@.len() as int) =~= workloads@);
    count as u32
}

} // verus!
