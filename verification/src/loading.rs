//! Reading machines, kubernetes clusters and whole deployments back from the
//! grid. Each comes in two steps: the first finds what must be had from
//! elsewhere (the flist whose checksum is fetched, the address values to be
//! put in canonical form), the second takes those values back and does the
//! rest.

use std::collections::HashMap;

use vstd::prelude::*;

use crate::error::{is_not_found, is_validation, GridError};
use crate::json::{clone_json, field, json_parse, member, JsonModel, JsonValue};
use crate::live::challenge::env_field;
use crate::machines::{
    reported_text, runtime_decodes, text_or_empty, env_value, pairs_map, k8s_network, k8s_cpus, k8s_memory_mb, u64_or_zero,
    assemble_k8s_cluster, decode_k8s_machine_data, decode_machine_data, decode_machine_runtime,
    k8s_data_decodes, k8s_node_from_machine, machine_data_decodes, read_back_start, read_back_vm, read_back_vm_light,
    last_master, read_back_workload, workers_of, same_deployment_frame, vm_from_machine, vm_light_from_machine, zmount_size, zmount_size_gb, ReadBackStep,
};
use crate::node::NodeClientGetter;
use crate::state::{cluster_node, deployment_info, first_deployment_named, not_indexed, resolve_metadata, subnet_of, subnets_of, State};
use crate::subi::SubstrateExt;
use crate::text::str_eq;
use crate::workloads::{self, is_master_node, parse_deployment_data};
use crate::zos;

verus! {

/// What must be had from elsewhere to read one machine back: the flist whose
/// checksum is fetched, and the address values as the node reported them,
/// to be put in canonical form (public IPv4, public IPv6 under `ipv6` or
/// `ip6`, and the first interface address of a kubernetes node).
#[derive(Debug)]
pub struct MachineFetch {
    pub node_id: u32,
    pub name: String,
    pub flist: String,
    pub ip: Option<JsonValue>,
    pub ipv6: Option<JsonValue>,
    pub ip6: Option<JsonValue>,
    pub interface_ip: Option<JsonValue>,
}

/// What came back for one machine: its flist checksum, and its addresses in
/// canonical form, each empty when it has none.
#[derive(Debug, Clone)]
pub struct MachineInputs {
    pub flist_checksum: String,
    pub ip: String,
    pub ip6: String,
    pub interface_ip: String,
}

/// The model of an optional value.
pub open spec fn opt_json(o: Option<JsonValue>) -> Option<JsonModel> {
    match o {
        Some(v) => Some(v@),
        None => None,
    }
}

fn opt_clone(v: Option<&JsonValue>) -> (r: Option<JsonValue>)
    ensures
        match v {
            Some(x) => r matches Some(y) && y@ == x@,
            None => r is None,
        },
{
    match v {
        Some(x) => Some(clone_json(x)),
        None => None,
    }
}

/// The address values of a public IP result: its `ip`, `ipv6` and `ip6`
/// members when the result is an object; none otherwise.
fn address_values(data: &JsonValue) -> (r: (Option<JsonValue>, Option<JsonValue>, Option<JsonValue>))
    ensures
        data@ is Object ==> opt_json(r.0) == field(data@, "ip"@) && opt_json(r.1) == field(data@, "ipv6"@) && opt_json(r.2)
            == field(data@, "ip6"@),
        !(data@ is Object) ==> r.0 is None && r.1 is None && r.2 is None,
{
    match data {
        JsonValue::Object(_) => (opt_clone(data.get("ip")), opt_clone(data.get("ipv6")), opt_clone(data.get("ip6"))),
        _ => (None, None, None),
    }
}

/// The member of `v` picked for an address: the first present of `ip`,
/// `addr`, `ip_address` and `address`.
pub open spec fn address_member(v: JsonModel) -> Option<JsonModel> {
    if field(v, "ip"@) is Some {
        field(v, "ip"@)
    } else if field(v, "addr"@) is Some {
        field(v, "addr"@)
    } else if field(v, "ip_address"@) is Some {
        field(v, "ip_address"@)
    } else {
        field(v, "address"@)
    }
}

/// The address text a public IP value holds: the value itself when it is
/// text; for an object, its picked member (see [`address_member`]) when
/// that is text; none otherwise.
pub open spec fn address_text_of(v: JsonModel) -> Option<Seq<char>> {
    match v {
        JsonModel::Str(t) => Some(t),
        JsonModel::Object(_) => match address_member(v) {
            Some(JsonModel::Str(t)) => Some(t),
            _ => None,
        },
        _ => None,
    }
}

/// The address text a public IP value holds (see [`address_text_of`]), still
/// to be put in canonical form.
pub fn address_text(v: &JsonValue) -> (r: Option<String>)
    ensures
        match address_text_of(v@) {
            Some(t) => r matches Some(x) && x@ == t,
            None => r is None,
        },
{
    match v {
        JsonValue::String(t) => Some(t.clone()),
        JsonValue::Object(_) => {
            let picked = match v.get("ip") {
                Some(x) => Some(x),
                None => match v.get("addr") {
                    Some(x) => Some(x),
                    None => match v.get("ip_address") {
                        Some(x) => Some(x),
                        None => v.get("address"),
                    },
                },
            };
            match picked {
                Some(JsonValue::String(t)) => Some(t.clone()),
                _ => None,
            }
        },
        _ => None,
    }
}

/// The name of the public IP workload of machine `name`.
fn ip_workload_name(name: &str) -> (r: String)
    ensures
        r@ == name@ + "ip"@,
{
    let mut k = String::from_str(name);
    k.append("ip");
    k
}

/// The address values of the public IP workload of VM `name` in `dl`: the
/// first workload of that name, when the node reports it as running.
fn vm_public_values(dl: &zos::Deployment, name: &str) -> (r: (Option<JsonValue>, Option<JsonValue>, Option<JsonValue>))
    ensures
        match zos::first_named(zos::workload_views(dl.workloads@), name@ + "ip"@) {
            Some(k) => {
                let res = dl.workloads@[k]@.result;
                if zos::okay_state(res.state) && res.data is Object {
                    opt_json(r.0) == field(res.data, "ip"@) && opt_json(r.1) == field(res.data, "ipv6"@)
                        && opt_json(r.2) == field(res.data, "ip6"@)
                } else {
                    r.0 is None && r.1 is None && r.2 is None
                }
            },
            None => r.0 is None && r.1 is None && r.2 is None,
        },
{
    let key = ip_workload_name(name);
    match dl.workload_with_id(key.as_str()) {
        Some(w) => {
            if w.result.is_okay() {
                address_values(&w.result.data)
            } else {
                (None, None, None)
            }
        },
        None => (None, None, None),
    }
}

/// The last public IP workload named `key` in `dl`, if any.
fn last_public_ip<'a>(dl: &'a zos::Deployment, key: &str) -> (r: Option<&'a zos::Workload>)
    ensures
        r matches Some(w) ==> w.name@ == key@ && w.workload_type@ == zos::PUBLIC_IP_TYPE@,
{
    let mut found: Option<&zos::Workload> = None;
    let mut i: usize = 0;
    while i < dl.workloads.len()
        invariant
            i <= dl.workloads@.len(),
            found matches Some(w) ==> w.name@ == key@ && w.workload_type@ == zos::PUBLIC_IP_TYPE@,
        decreases dl.workloads.len() - i,
    {
        let w = &dl.workloads[i];
        if str_eq(w.workload_type.as_str(), zos::PUBLIC_IP_TYPE) && str_eq(w.name.as_str(), key) {
            found = Some(w);
        }
        i = i + 1;
    }
    found
}

/// Every public IP result of a kubernetes deployment must read: each is an
/// object.
fn check_k8s_public_ips(dl: &zos::Deployment) -> (r: Result<(), GridError>)
    ensures
        r is Ok <==> forall|i: int| 0 <= i < dl.workloads@.len() && dl.workloads@[i].workload_type@ == zos::PUBLIC_IP_TYPE@
            ==> (#[trigger] dl.workloads@[i]).result.data@ is Object,
        r is Err ==> (r matches Err(e) && is_validation(e, "failed to read k8s public ip data: the result is not an object"@)),
{
    let mut i: usize = 0;
    while i < dl.workloads.len()
        invariant
            i <= dl.workloads@.len(),
            forall|j: int| 0 <= j < i && dl.workloads@[j].workload_type@ == zos::PUBLIC_IP_TYPE@
                ==> (#[trigger] dl.workloads@[j]).result.data@ is Object,
        decreases dl.workloads.len() - i,
    {
        let w = &dl.workloads[i];
        if str_eq(w.workload_type.as_str(), zos::PUBLIC_IP_TYPE) {
            match &w.result.data {
                JsonValue::Object(_) => {},
                _ => {
                    return Err(GridError::validation("failed to read k8s public ip data: the result is not an object"));
                },
            }
        }
        i = i + 1;
    }
    Ok(())
}

/// The size last recorded under `key` in `sizes`, if any.
pub open spec fn size_of(sizes: Seq<(Seq<char>, u64)>, key: Seq<char>) -> Option<u64>
    decreases sizes.len(),
{
    if sizes.len() == 0 {
        None
    } else if sizes.last().0 == key {
        Some(sizes.last().1)
    } else {
        size_of(sizes.drop_last(), key)
    }
}

/// The disk table of a kubernetes deployment: `base` (its disks), then,
/// for each machine of `ws` in order that has no entry yet, its name with
/// the size recorded under its name with `disk` appended (zero when none).
pub open spec fn disk_table(base: Seq<(Seq<char>, u64)>, ws: Seq<zos::WorkloadView>) -> Seq<(Seq<char>, u64)>
    decreases ws.len(),
{
    if ws.len() == 0 {
        base
    } else {
        let t = disk_table(base, ws.drop_last());
        let w = ws.last();
        if w.workload_type == zos::ZMACHINE_TYPE@ && size_of(t, w.name) is None {
            t.push((w.name, match size_of(t, w.name + "disk"@) {
                Some(n) => n,
                None => 0,
            }))
        } else {
            t
        }
    }
}

/// The disk size of kubernetes machine `name` among workloads `ws`.
pub open spec fn k8s_disk(ws: Seq<zos::WorkloadView>, name: Seq<char>) -> u64 {
    match size_of(disk_table(zmount_entries(ws), ws), name) {
        Some(n) => n,
        None => 0,
    }
}

/// The size last recorded under `key` in `sizes`.
fn find_size(sizes: &Vec<(String, u64)>, key: &str) -> (r: Option<u64>)
    ensures
        r == size_of(size_views(sizes@), key@),
{
    let mut found: Option<u64> = None;
    let mut i: usize = 0;
    while i < sizes.len()
        invariant
            i <= sizes@.len(),
            found == size_of(size_views(sizes@.take(i as int)), key@),
        decreases sizes.len() - i,
    {
        assert(size_views(sizes@.take(i as int + 1)).drop_last() =~= size_views(sizes@.take(i as int)));
        assert(size_views(sizes@.take(i as int + 1)).last() == (sizes@[i as int].0@, sizes@[i as int].1));
        if str_eq(sizes[i].0.as_str(), key) {
            found = Some(sizes[i].1);
        }
        i = i + 1;
    }
    assert(sizes@.take(sizes@.len() as int) =~= sizes@);
    found
}

/// The disk table of a kubernetes deployment (see [`disk_table`]).
fn k8s_disk_table(dl: &zos::Deployment) -> (r: Vec<(String, u64)>)
    ensures
        size_views(r@) == disk_table(zmount_entries(zos::workload_views(dl.workloads@)), zos::workload_views(dl.workloads@)),
{
    let ghost ws = zos::workload_views(dl.workloads@);
    let mut t = zmount_sizes(dl);
    let ghost base = size_views(t@);
    let mut i: usize = 0;
    while i < dl.workloads.len()
        invariant
            i <= dl.workloads@.len(),
            ws == zos::workload_views(dl.workloads@),
            base == zmount_entries(ws),
            size_views(t@) == disk_table(base, ws.take(i as int)),
        decreases dl.workloads.len() - i,
    {
        let w = &dl.workloads[i];
        proof {
            assert(ws.take(i as int + 1).drop_last() =~= ws.take(i as int));
            assert(ws.take(i as int + 1).last() == w@);
        }
        if str_eq(w.workload_type.as_str(), zos::ZMACHINE_TYPE) {
            if find_size(&t, w.name.as_str()).is_none() {
                let mut key = w.name.clone();
                key.append("disk");
                let n = match find_size(&t, key.as_str()) {
                    Some(n) => n,
                    None => 0,
                };
                let ghost before = t@;
                t.push((w.name.clone(), n));
                assert(size_views(t@) =~= size_views(before).push((w.name@, n)));
            }
        }
        i = i + 1;
    }
    assert(ws.take(ws.len() as int) =~= ws);
    t
}

/// The disks among workloads `ws`, in order, each with the size its data
/// gives.
pub open spec fn zmount_entries(ws: Seq<zos::WorkloadView>) -> Seq<(Seq<char>, u64)>
    decreases ws.len(),
{
    if ws.len() == 0 {
        Seq::empty()
    } else if ws.last().workload_type == zos::ZMOUNT_TYPE@ {
        zmount_entries(ws.drop_last()).push((ws.last().name, zmount_size(ws.last().data)))
    } else {
        zmount_entries(ws.drop_last())
    }
}

/// The views of named sizes.
pub open spec fn size_views(sizes: Seq<(String, u64)>) -> Seq<(Seq<char>, u64)> {
    sizes.map_values(|e: (String, u64)| (e.0@, e.1))
}

/// The disks of a kubernetes deployment with their sizes, in order.
fn zmount_sizes(dl: &zos::Deployment) -> (r: Vec<(String, u64)>)
    ensures
        size_views(r@) == zmount_entries(zos::workload_views(dl.workloads@)),
{
    let ghost ws = zos::workload_views(dl.workloads@);
    let mut out: Vec<(String, u64)> = Vec::new();
    let mut i: usize = 0;
    while i < dl.workloads.len()
        invariant
            i <= dl.workloads@.len(),
            ws == zos::workload_views(dl.workloads@),
            size_views(out@) == zmount_entries(ws.take(i as int)),
        decreases dl.workloads.len() - i,
    {
        assert(ws.take(i as int + 1).drop_last() =~= ws.take(i as int));
        let w = &dl.workloads[i];
        assert(ws.take(i as int + 1).last() == w@);
        let ghost before = out@;
        if str_eq(w.workload_type.as_str(), zos::ZMOUNT_TYPE) {
            out.push((w.name.clone(), zmount_size_gb(&w.data)));
            assert(size_views(out@) =~= size_views(before).push((w.name@, zmount_size(w.data@))));
        }
        i = i + 1;
    }
    assert(ws.take(ws.len() as int) =~= ws);
    out
}

/// Whether `n` is among the first `k` of `ids`.
fn seen_before(ids: &[u32], k: usize, n: u32) -> (r: bool)
    requires
        k <= ids@.len(),
    ensures
        r == exists|j: int| 0 <= j < k && ids@[j] == n,
{
    let mut j: usize = 0;
    while j < k
        invariant
            k <= ids@.len(),
            j <= k,
            forall|q: int| 0 <= q < j ==> ids@[q] != n,
        decreases k - j,
    {
        if ids[j] == n {
            return true;
        }
        j = j + 1;
    }
    false
}

/// `id` is the contract of the first deployment named `name` among `held`.
pub open spec fn contract_of_named(held: Seq<zos::DeploymentView>, cs: Map<u64, crate::subi::Contract>, name: Seq<char>, id: u64) -> bool {
    exists|i: int| #[trigger] first_deployment_named(held, cs, name, i) && held[i].contract_id == id
}

/// `d` is the first deployment named `name` among `held`.
pub open spec fn named_deployment(held: Seq<zos::DeploymentView>, cs: Map<u64, crate::subi::Contract>, name: Seq<char>, d: zos::DeploymentView) -> bool {
    exists|i: int| #[trigger] first_deployment_named(held, cs, name, i) && held[i] == d
}

/// `project` is the project that the metadata of the first deployment named
/// `name` among `held` gives.
pub open spec fn project_of_named(held: Seq<zos::DeploymentView>, cs: Map<u64, crate::subi::Contract>, name: Seq<char>, project: Seq<char>) -> bool {
    exists|i: int| #[trigger] first_deployment_named(held, cs, name, i) && (deployment_info(held[i], cs) matches Some(x) && x.3 == project)
}

/// The master of nodes read in order is one of them.
proof fn lemma_last_master_is_listed(s: Seq<(workloads::K8sNode, Option<String>)>)
    ensures
        last_master(s) matches Some(m) ==> exists|j: int| 0 <= j < s.len() && #[trigger] s[j] == m && m.1 is Some,
    decreases s.len(),
{
    if s.len() > 0 && s.last().1 is None {
        lemma_last_master_is_listed(s.drop_last());
        if last_master(s.drop_last()) is Some {
            let m = last_master(s.drop_last()).unwrap();
            let j = choose|j: int| 0 <= j < s.drop_last().len() && #[trigger] s.drop_last()[j] == m && m.1 is Some;
            assert(s[j] == m);
        }
    } else if s.len() > 0 {
        assert(s[s.len() - 1] == s.last());
    }
}

/// Every worker of nodes read in order is one of them.
proof fn lemma_workers_are_listed(s: Seq<(workloads::K8sNode, Option<String>)>)
    ensures
        forall|i: int| #![trigger workers_of(s)[i]] 0 <= i < workers_of(s).len() ==> exists|j: int| 0 <= j < s.len() && #[trigger] s[j].0 == workers_of(s)[i] && s[j].1 is None,
    decreases s.len(),
{
    if s.len() > 0 {
        let rest = s.drop_last();
        lemma_workers_are_listed(rest);
        assert forall|i: int| #![trigger workers_of(s)[i]] 0 <= i < workers_of(s).len() implies exists|j: int| 0 <= j < s.len() && #[trigger] s[j].0 == workers_of(s)[i] && s[j].1 is None by {
            if i < workers_of(rest).len() {
                let j = choose|j: int| 0 <= j < rest.len() && #[trigger] rest[j].0 == workers_of(rest)[i];
                assert(s[j] == rest[j]);
            } else {
                assert(s[s.len() - 1] == s.last());
            }
        }
    }
}

/// `f` asks for a kubernetes machine of the first deployment named `name`
/// among `held`: a machine workload of that deployment whose data reads,
/// with its name and its flist.
pub open spec fn k8s_machine_fetch(f: MachineFetch, held: Seq<zos::DeploymentView>, cs: Map<u64, crate::subi::Contract>, name: Seq<char>) -> bool {
    exists|i: int, k: int| {
        &&& #[trigger] first_deployment_named(held, cs, name, i)
        &&& 0 <= k < held[i].workloads.len()
        &&& #[trigger] held[i].workloads[k].workload_type == zos::ZMACHINE_TYPE@
        &&& held[i].workloads[k].name == f.name@
        &&& k8s_data_decodes(held[i].workloads[k].data)
        &&& f.flist@ == crate::json::field_text(held[i].workloads[k].data, "flist"@).unwrap()
    }
}

/// `f` asks for a machine of the first deployment named `name` among
/// `held`: a full or light machine workload of that deployment whose data
/// reads, with its name and its flist.
pub open spec fn machine_fetch(f: MachineFetch, held: Seq<zos::DeploymentView>, cs: Map<u64, crate::subi::Contract>, name: Seq<char>) -> bool {
    exists|i: int, k: int| {
        &&& #[trigger] first_deployment_named(held, cs, name, i)
        &&& 0 <= k < held[i].workloads.len()
        &&& (#[trigger] held[i].workloads[k].workload_type == zos::ZMACHINE_TYPE@ || held[i].workloads[k].workload_type
            == zos::ZMACHINE_LIGHT_TYPE@)
        &&& held[i].workloads[k].name == f.name@
        &&& machine_data_decodes(held[i].workloads[k].data)
        &&& f.flist@ == crate::json::field_text(held[i].workloads[k].data, "flist"@).unwrap()
    }
}

/// Light VM `vm` is workload `w` on `node_id` read back: its name, node and
/// machine data, and the mycelium address and console URL its node reported
/// in the workload's result.
pub open spec fn light_read_back(vm: workloads::VMLight, w: zos::WorkloadView, node_id: u32) -> bool {
    &&& vm.name@ == w.name
    &&& vm.node_id == node_id
    &&& machine_data_decodes(w.data)
    &&& vm.description@ == w.description
    &&& vm.flist@ == crate::json::field_text(w.data, "flist"@).unwrap()
    &&& vm.network_name@ == crate::json::field_text(w.data, "network_name"@).unwrap()
    &&& vm.ip@ == crate::json::field_text(w.data, "ip"@).unwrap()
    &&& vm.cpus == crate::live::challenge::field_u8(w.data, "compute_cpu"@).unwrap()
    &&& vm.memory_mb == crate::json::field_u64(w.data, "compute_memory_mb"@).unwrap()
    &&& vm.rootfs_size_mb == crate::json::field_u64(w.data, "rootfs_size_mb"@).unwrap()
    &&& vm.entrypoint@ == crate::json::field_text(w.data, "entrypoint"@).unwrap()
    &&& vm.mycelium_ip@ == reported_text(w.result.data, true, "mycelium_ip"@)
    &&& vm.console_url@ == reported_text(w.result.data, true, "console_url"@)
}

/// A light VM read back carries what its node reported in the machine's
/// result: when the result reads as addresses, its mycelium address and
/// console URL are the result's members of those names (empty when
/// absent); otherwise both are empty.
pub proof fn law_light_vm_carries_reported_addresses(vm: workloads::VMLight, w: zos::WorkloadView, node_id: u32)
    requires
        light_read_back(vm, w, node_id),
    ensures
        runtime_decodes(w.result.data, true) ==> vm.mycelium_ip@ == text_or_empty(w.result.data, "mycelium_ip"@).unwrap()
            && vm.console_url@ == text_or_empty(w.result.data, "console_url"@).unwrap(),
        !runtime_decodes(w.result.data, true) ==> vm.mycelium_ip@.len() == 0 && vm.console_url@.len() == 0,
{
}

/// A kubernetes node read back carries what its node reported in the
/// machine's result: when the result reads as addresses, its mycelium
/// address and console URL are the result's members of those names (empty
/// when absent), and its planetary address is the result's `planetary_ip`,
/// else its `ygg_ip`; otherwise all three are empty.
pub proof fn law_k8s_node_carries_reported_addresses(
    node: workloads::K8sNode,
    ws: Seq<zos::WorkloadView>,
    k: int,
    node_id: u32,
    inp: MachineInputs,
    master: bool,
)
    requires
        k8s_node_read(node, ws, k, node_id, inp, master),
    ensures
        runtime_decodes(ws[k].result.data, false) ==> {
            let d = ws[k].result.data;
            &&& node.vm.mycelium_ip@ == text_or_empty(d, "mycelium_ip"@).unwrap()
            &&& node.vm.console_url@ == text_or_empty(d, "console_url"@).unwrap()
            &&& node.vm.planetary_ip@ == if text_or_empty(d, "planetary_ip"@).unwrap().len() > 0 {
                text_or_empty(d, "planetary_ip"@).unwrap()
            } else {
                text_or_empty(d, "ygg_ip"@).unwrap()
            }
        },
        !runtime_decodes(ws[k].result.data, false) ==> node.vm.mycelium_ip@.len() == 0 && node.vm.console_url@.len() == 0
            && node.vm.planetary_ip@.len() == 0,
{
}

/// `vm` is machine workload `w` read back with one of `inputs`.
pub open spec fn vm_from_fetched(vm: workloads::VM, w: zos::WorkloadView, node_id: u32, inputs: Seq<MachineInputs>) -> bool {
    exists|q: int| 0 <= q < inputs.len() && #[trigger] vm_read_back(vm, w, node_id, inputs[q])
}

/// The places of the workloads of type `kind` among `ws`, in order.
pub open spec fn places_of(ws: Seq<zos::WorkloadView>, kind: Seq<char>) -> Seq<int>
    decreases ws.len(),
{
    if ws.len() == 0 {
        Seq::empty()
    } else if ws.last().workload_type == kind {
        places_of(ws.drop_last(), kind).push(ws.len() - 1)
    } else {
        places_of(ws.drop_last(), kind)
    }
}

/// The machine kinds differ from each other and from the other kinds a
/// deployment is read back by.
proof fn lemma_machine_kinds_differ()
    ensures
        zos::ZMACHINE_TYPE@ != zos::ZMOUNT_TYPE@,
        zos::ZMACHINE_TYPE@ != zos::VOLUME_TYPE@,
        zos::ZMACHINE_TYPE@ != zos::ZDB_TYPE@,
        zos::ZMACHINE_TYPE@ != zos::ZMACHINE_LIGHT_TYPE@,
        zos::ZMACHINE_LIGHT_TYPE@ != zos::ZMOUNT_TYPE@,
        zos::ZMACHINE_LIGHT_TYPE@ != zos::VOLUME_TYPE@,
        zos::ZMACHINE_LIGHT_TYPE@ != zos::ZDB_TYPE@,
{
    reveal_strlit("zmachine");
    reveal_strlit("zmachine-light");
    reveal_strlit("zmount");
    reveal_strlit("volume");
    reveal_strlit("zdb");
    assert(zos::ZMACHINE_TYPE@.len() == 8);
    assert(zos::ZMOUNT_TYPE@.len() == 6);
    assert(zos::VOLUME_TYPE@.len() == 6);
    assert(zos::ZDB_TYPE@.len() == 3);
    assert(zos::ZMACHINE_LIGHT_TYPE@.len() == 14);
}

/// At most one deployment is the first named `name`.
proof fn lemma_first_named_unique(held: Seq<zos::DeploymentView>, cs: Map<u64, crate::subi::Contract>, name: Seq<char>)
    ensures
        forall|i: int, j: int| #[trigger] first_deployment_named(held, cs, name, i) && #[trigger] first_deployment_named(held, cs, name, j) ==> i == j,
{
    assert forall|i: int, j: int| #[trigger] first_deployment_named(held, cs, name, i) && #[trigger] first_deployment_named(held, cs, name, j) implies i == j by {
        if i < j {
            assert(deployment_info(held[i], cs) matches Some(x) && x.2 == name);
        } else if j < i {
            assert(deployment_info(held[j], cs) matches Some(x) && x.2 == name);
        }
    }
}

/// The first deployment named `name` among `held`.
pub open spec fn dl_of(held: Seq<zos::DeploymentView>, cs: Map<u64, crate::subi::Contract>, name: Seq<char>) -> zos::DeploymentView {
    held[choose|i: int| first_deployment_named(held, cs, name, i)]
}

/// Whether kubernetes machine data names the master: its `env` has no
/// `K3S_URL`, or an empty one.
pub open spec fn k8s_master(d: JsonModel) -> bool {
    match field(d, "env"@) {
        Some(JsonModel::Object(env)) => member(env, "K3S_URL"@) is None || member(env, "K3S_URL"@).unwrap() == JsonModel::Str(
            Seq::empty(),
        ),
        _ => false,
    }
}

/// Node `node` is kubernetes machine `k` of workloads `ws` on `node_id`,
/// read back with the fetched values `inp`; `master` says whether its data
/// names the master.
pub open spec fn k8s_node_read(node: workloads::K8sNode, ws: Seq<zos::WorkloadView>, k: int, node_id: u32, inp: MachineInputs, master: bool) -> bool {
    &&& 0 <= k < ws.len()
    &&& k8s_master(ws[k].data) == master
    &&& ws[k].workload_type == zos::ZMACHINE_TYPE@
    &&& k8s_data_decodes(ws[k].data)
    &&& node.disk_size_gb == k8s_disk(ws, ws[k].name)
    &&& node.vm.name@ == ws[k].name
    &&& node.vm.node_id == node_id
    &&& node.vm.flist@ == crate::json::field_text(ws[k].data, "flist"@).unwrap()
    &&& node.vm.flist_checksum@ == inp.flist_checksum@
    &&& node.vm.computed_ip@ == inp.ip@
    &&& node.vm.computed_ip6@ == inp.ip6@
    &&& node.vm.ip@ == inp.interface_ip@
    &&& node.vm.env_vars@ == pairs_map(env_field(ws[k].data, "env"@).unwrap())
    &&& node.vm.description@ == ws[k].description
    &&& node.vm.network_name@ == k8s_network(ws[k].data).unwrap().3
    &&& node.vm.mycelium_ip_seed@ == k8s_network(ws[k].data).unwrap().1
    &&& node.vm.entrypoint@ == text_or_empty(ws[k].data, "entrypoint"@).unwrap()
    &&& node.vm.cpus == k8s_cpus(ws[k].data)
    &&& node.vm.memory_mb == k8s_memory_mb(ws[k].data)
    &&& node.vm.rootfs_size_mb == u64_or_zero(ws[k].data, "rootfs_size_mb"@).unwrap()
    &&& node.vm.public_ip == (inp.ip@.len() > 0)
    &&& node.vm.public_ip6 == (inp.ip6@.len() > 0)
    &&& node.vm.planetary == (reported_text(ws[k].result.data, false, "planetary_ip"@).len() > 0 || reported_text(
        ws[k].result.data,
        false,
        "ygg_ip"@,
    ).len() > 0 || k8s_network(ws[k].data).unwrap().0)
    &&& node.vm.mycelium_ip@ == reported_text(ws[k].result.data, false, "mycelium_ip"@)
    &&& node.vm.console_url@ == reported_text(ws[k].result.data, false, "console_url"@)
    &&& node.vm.planetary_ip@ == (if reported_text(ws[k].result.data, false, "planetary_ip"@).len() > 0 {
        reported_text(ws[k].result.data, false, "planetary_ip"@)
    } else {
        reported_text(ws[k].result.data, false, "ygg_ip"@)
    })
}

/// `node` is a kubernetes machine of the deployment named `name` on one of
/// `node_ids`, read back with the fetched values `inp`; `master` says
/// whether its data names the master.
pub open spec fn k8s_node_of<G: NodeClientGetter>(node: workloads::K8sNode, node_ids: Seq<u32>, pool: G, cs: Map<u64, crate::subi::Contract>, name: Seq<char>, inp: MachineInputs, master: bool) -> bool {
    exists|n: u32, d: zos::DeploymentView, k: int| {
        &&& node_ids.contains(n)
        &&& named_deployment(pool.node_held(n), cs, name, d)
        &&& #[trigger] k8s_node_read(node, d.workloads, k, n, inp, master)
    }
}

/// A VM of a deployment read back with what was fetched for it.
pub open spec fn vm_read_back(vm: workloads::VM, w: zos::WorkloadView, node_id: u32, inputs: MachineInputs) -> bool {
    &&& machine_data_decodes(w.data)
    &&& vm.name@ == w.name
    &&& vm.node_id == node_id
    &&& vm.flist@ == crate::json::field_text(w.data, "flist"@).unwrap()
    &&& vm.network_name@ == crate::json::field_text(w.data, "network_name"@).unwrap()
    &&& vm.ip@ == crate::json::field_text(w.data, "ip"@).unwrap()
    &&& vm.cpus == crate::live::challenge::field_u8(w.data, "compute_cpu"@).unwrap()
    &&& vm.memory_mb == crate::json::field_u64(w.data, "compute_memory_mb"@).unwrap()
    &&& vm.rootfs_size_mb == crate::json::field_u64(w.data, "rootfs_size_mb"@).unwrap()
    &&& vm.entrypoint@ == crate::json::field_text(w.data, "entrypoint"@).unwrap()
    &&& vm.flist_checksum@ == inputs.flist_checksum@
    &&& vm.computed_ip@ == inputs.ip@
    &&& vm.computed_ip6@ == inputs.ip6@
    &&& vm.public_ip == (inputs.ip@.len() > 0)
    &&& vm.public_ip6 == (inputs.ip6@.len() > 0)
    &&& vm.description@ == w.description
    &&& vm.planetary == (reported_text(w.result.data, false, "planetary_ip"@).len() > 0 || reported_text(
        w.result.data,
        false,
        "ygg_ip"@,
    ).len() > 0)
    &&& vm.mycelium_ip@ == reported_text(w.result.data, false, "mycelium_ip"@)
    &&& vm.console_url@ == reported_text(w.result.data, false, "console_url"@)
    &&& vm.planetary_ip@ == (if reported_text(w.result.data, false, "planetary_ip"@).len() > 0 {
        reported_text(w.result.data, false, "planetary_ip"@)
    } else {
        reported_text(w.result.data, false, "ygg_ip"@)
    })
}


impl<G: NodeClientGetter, S: SubstrateExt> State<G, S> {
    /// What must be fetched to read VM `name` of deployment `deployment_name`
    /// on `node_id` back: its flist, and for a full VM the address values of
    /// its public IP workload when that runs.
    pub fn vm_fetch(&mut self, node_id: u32, name: &str, deployment_name: &str, light: bool) -> (r: Result<MachineFetch, GridError>)
        ensures
            !old(self).current_node_deployments@.contains_key(node_id) ==> (r matches Err(e) && is_not_found(e, not_indexed(node_id))),
            r matches Ok(f) ==> f.node_id == node_id && f.name@ == name@ && f.interface_ip is None
                && (light ==> f.ip is None && f.ipv6 is None && f.ip6 is None),
            r matches Ok(f) ==> name@.len() != 0 ==> exists|i: int| {
                let d = old(self).nc_pool.node_held(node_id)[i];
                &&& #[trigger] first_deployment_named(old(self).nc_pool.node_held(node_id), old(self).substrate.contracts_view(), deployment_name@, i)
                &&& zos::first_named(d.workloads, name@) matches Some(k)
                &&& machine_data_decodes(d.workloads[k].data)
                &&& f.flist@ == crate::json::field_text(d.workloads[k].data, "flist"@).unwrap()
            },
            final(self).current_node_deployments@ == old(self).current_node_deployments@,
    {
        let (wl, dl) = self.get_workload_in_deployment(node_id, name, deployment_name)?;
        let data = decode_machine_data(&wl.data)?;
        let (ip, ipv6, ip6) = if light {
            (None, None, None)
        } else {
            vm_public_values(&dl, name)
        };
        Ok(MachineFetch { node_id, name: String::from_str(name), flist: data.flist, ip, ipv6, ip6, interface_ip: None })
    }

    /// VM `name` of deployment `deployment_name` on `node_id`, read back with
    /// its flist checksum and canonical public addresses.
    #[verifier::rlimit(40)]
    pub fn load_vm_from_grid(&mut self, node_id: u32, name: &str, deployment_name: &str, inputs: &MachineInputs) -> (r: Result<workloads::VM, GridError>)
        ensures
            !old(self).current_node_deployments@.contains_key(node_id) ==> (r matches Err(e) && is_not_found(e, not_indexed(node_id))),
            r matches Ok(vm) ==> name@.len() != 0 ==> exists|i: int| {
                let d = old(self).nc_pool.node_held(node_id)[i];
                &&& #[trigger] first_deployment_named(old(self).nc_pool.node_held(node_id), old(self).substrate.contracts_view(), deployment_name@, i)
                &&& zos::first_named(d.workloads, name@) matches Some(k) && vm_read_back(vm, d.workloads[k], node_id, *inputs)
            },
            final(self).current_node_deployments@ == old(self).current_node_deployments@,
    {
        let (wl, _) = self.get_workload_in_deployment(node_id, name, deployment_name)?;
        let data = decode_machine_data(&wl.data)?;
        let runtime = decode_machine_runtime(&wl.result.data, false);
        let public = (
            inputs.ip.clone(),
            inputs.ip6.clone(),
            inputs.ip.unicode_len() > 0,
            inputs.ip6.unicode_len() > 0,
        );
        let vm = vm_from_machine(&wl, node_id, data, runtime, inputs.flist_checksum.clone(), public);
        Ok(vm)
    }

    /// Light VM `name` of deployment `deployment_name` on `node_id`, read
    /// back with its flist checksum.
    pub fn load_vm_light_from_grid(&mut self, node_id: u32, name: &str, deployment_name: &str, inputs: &MachineInputs) -> (r: Result<workloads::VMLight, GridError>)
        ensures
            !old(self).current_node_deployments@.contains_key(node_id) ==> (r matches Err(e) && is_not_found(e, not_indexed(node_id))),
            r matches Ok(vm) ==> name@.len() != 0 ==> exists|i: int| {
                let d = old(self).nc_pool.node_held(node_id)[i];
                &&& #[trigger] first_deployment_named(old(self).nc_pool.node_held(node_id), old(self).substrate.contracts_view(), deployment_name@, i)
                &&& zos::first_named(d.workloads, name@) matches Some(k) && {
                    let w = d.workloads[k];
                    &&& machine_data_decodes(w.data)
                    &&& vm.name@ == w.name
                    &&& vm.node_id == node_id
                    &&& vm.flist@ == crate::json::field_text(w.data, "flist"@).unwrap()
                    &&& vm.network_name@ == crate::json::field_text(w.data, "network_name"@).unwrap()
                    &&& vm.cpus == crate::live::challenge::field_u8(w.data, "compute_cpu"@).unwrap()
                    &&& vm.memory_mb == crate::json::field_u64(w.data, "compute_memory_mb"@).unwrap()
                    &&& vm.flist_checksum@ == inputs.flist_checksum@
                    &&& vm.ip@ == crate::json::field_text(w.data, "ip"@).unwrap()
                    &&& vm.mycelium_ip@ == reported_text(w.result.data, true, "mycelium_ip"@)
                    &&& vm.console_url@ == reported_text(w.result.data, true, "console_url"@)
                }
            },
            final(self).current_node_deployments@ == old(self).current_node_deployments@,
    {
        let (wl, _) = self.get_workload_in_deployment(node_id, name, deployment_name)?;
        let data = decode_machine_data(&wl.data)?;
        let runtime = decode_machine_runtime(&wl.result.data, true);
        let vm = vm_light_from_machine(&wl, node_id, data, runtime, inputs.flist_checksum.clone());
        Ok(vm)
    }
}

impl<G: NodeClientGetter, S: SubstrateExt> State<G, S> {
    /// The deployments named `deployment_name` on the distinct nodes of
    /// `node_ids`, in order, with the contract of each node's deployment.
    fn k8s_deployments(&mut self, node_ids: &[u32], deployment_name: &str) -> (r: Result<(Vec<(u32, zos::Deployment)>, HashMap<u32, u64>), GridError>)
        ensures
            node_ids@.len() > 0 && !old(self).current_node_deployments@.contains_key(node_ids@[0]) ==> (r matches Err(e) && is_not_found(
                e,
                not_indexed(node_ids@[0]),
            )),
            r is Ok && node_ids@.len() > 0 ==> old(self).current_node_deployments@.contains_key(node_ids@[0]),
            r matches Ok(p) ==> forall|n: u32| #[trigger] p.1@.contains_key(n) <==> node_ids@.contains(n),
            r matches Ok(p) ==> forall|i: int| 0 <= i < p.0@.len() ==> node_ids@.contains(#[trigger] p.0@[i].0),
            r matches Ok(p) ==> forall|i: int| 0 <= i < p.0@.len() ==> named_deployment(
                old(self).nc_pool.node_held(#[trigger] p.0@[i].0),
                old(self).substrate.contracts_view(),
                deployment_name@,
                p.0@[i].1@,
            ),
            r matches Ok(p) ==> forall|n: u32| #[trigger] p.1@.contains_key(n) ==> contract_of_named(
                old(self).nc_pool.node_held(n),
                old(self).substrate.contracts_view(),
                deployment_name@,
                p.1@[n],
            ),
            final(self).current_node_deployments@ == old(self).current_node_deployments@,
            final(self).networks.state@ == old(self).networks.state@,
            final(self).substrate == old(self).substrate,
    {
        let mut out: Vec<(u32, zos::Deployment)> = Vec::new();
        let mut ids: HashMap<u32, u64> = HashMap::new();
        let mut k: usize = 0;
        while k < node_ids.len()
            invariant
                k <= node_ids@.len(),
                k > 0 ==> old(self).current_node_deployments@.contains_key(node_ids@[0]),
                forall|n: u32| #[trigger] ids@.contains_key(n) <==> exists|j: int| 0 <= j < k && node_ids@[j] == n,
                forall|i: int| 0 <= i < out@.len() ==> node_ids@.contains(#[trigger] out@[i].0),
                forall|i: int| 0 <= i < out@.len() ==> named_deployment(
                    old(self).nc_pool.node_held(#[trigger] out@[i].0),
                    old(self).substrate.contracts_view(),
                    deployment_name@,
                    out@[i].1@,
                ),
                self.current_node_deployments@ == old(self).current_node_deployments@,
                self.networks.state@ == old(self).networks.state@,
                self.substrate == old(self).substrate,
                forall|n: u32| #[trigger] self.nc_pool.node_held(n) == old(self).nc_pool.node_held(n),
                forall|n: u32| #[trigger] ids@.contains_key(n) ==> contract_of_named(
                    old(self).nc_pool.node_held(n),
                    old(self).substrate.contracts_view(),
                    deployment_name@,
                    ids@[n],
                ),
            decreases node_ids.len() - k,
        {
            let node_id = node_ids[k];
            if !seen_before(node_ids, k, node_id) {
                let (_, dl) = self.get_workload_in_deployment(node_id, "", deployment_name)?;
                ids.insert(node_id, dl.contract_id);
                let ghost before = out@;
                out.push((node_id, dl));
                proof {
                    assert(node_ids@[k as int] == node_id);
                    assert forall|i: int| 0 <= i < out@.len() implies node_ids@.contains(#[trigger] out@[i].0) by {
                        if i < before.len() {
                            assert(out@[i] == before[i]);
                        }
                    }
                    assert forall|i: int| 0 <= i < out@.len() implies named_deployment(
                        old(self).nc_pool.node_held(#[trigger] out@[i].0),
                        old(self).substrate.contracts_view(),
                        deployment_name@,
                        out@[i].1@,
                    ) by {
                        if i < before.len() {
                            assert(out@[i] == before[i]);
                        }
                    }
                }
            }
            proof {
                assert forall|n: u32| #[trigger] ids@.contains_key(n) <==> exists|j: int| 0 <= j < k + 1 && node_ids@[j] == n by {
                    if n == node_id {
                        assert(node_ids@[k as int] == n);
                    }
                }
            }
            k = k + 1;
        }
        proof {
            assert forall|n: u32| #[trigger] ids@.contains_key(n) <==> node_ids@.contains(n) by {
                if node_ids@.contains(n) {
                    let j = choose|j: int| 0 <= j < node_ids@.len() && node_ids@[j] == n;
                    assert(exists|q: int| 0 <= q < k && node_ids@[q] == n);
                }
            }
        }
        Ok((out, ids))
    }

    /// What must be fetched to read kubernetes cluster `deployment_name`
    /// back from `node_ids`: for each machine, in the order the nodes and
    /// their workloads come, its flist, the address values of its public IP
    /// workload and its first interface address. A public IP result that is
    /// not an object, or machine data that does not read, is an error.
    pub fn k8s_fetch(&mut self, node_ids: &[u32], deployment_name: &str) -> (r: Result<Vec<MachineFetch>, GridError>)
        ensures
            node_ids@.len() > 0 && !old(self).current_node_deployments@.contains_key(node_ids@[0]) ==> (r matches Err(e) && is_not_found(
                e,
                not_indexed(node_ids@[0]),
            )),
            r matches Ok(v) ==> forall|i: int| 0 <= i < v@.len() ==> node_ids@.contains(#[trigger] v@[i].node_id),
            r matches Ok(v) ==> forall|i: int| 0 <= i < v@.len() ==> k8s_machine_fetch(
                #[trigger] v@[i],
                old(self).nc_pool.node_held(v@[i].node_id),
                old(self).substrate.contracts_view(),
                deployment_name@,
            ),
            final(self).current_node_deployments@ == old(self).current_node_deployments@,
    {
        let (deps, _) = self.k8s_deployments(node_ids, deployment_name)?;
        let mut out: Vec<MachineFetch> = Vec::new();
        let mut d: usize = 0;
        while d < deps.len()
            invariant
                d <= deps@.len(),
                node_ids@.len() > 0 ==> old(self).current_node_deployments@.contains_key(node_ids@[0]),
                self.current_node_deployments@ == old(self).current_node_deployments@,
                forall|i: int| 0 <= i < deps@.len() ==> node_ids@.contains(#[trigger] deps@[i].0),
                forall|i: int| 0 <= i < deps@.len() ==> named_deployment(
                    old(self).nc_pool.node_held(#[trigger] deps@[i].0),
                    old(self).substrate.contracts_view(),
                    deployment_name@,
                    deps@[i].1@,
                ),
                forall|i: int| 0 <= i < out@.len() ==> node_ids@.contains(#[trigger] out@[i].node_id),
                forall|i: int| 0 <= i < out@.len() ==> k8s_machine_fetch(
                    #[trigger] out@[i],
                    old(self).nc_pool.node_held(out@[i].node_id),
                    old(self).substrate.contracts_view(),
                    deployment_name@,
                ),
            decreases deps.len() - d,
        {
            let node_id = deps[d].0;
            let dl = &deps[d].1;
            check_k8s_public_ips(dl)?;
            let mut w: usize = 0;
            while w < dl.workloads.len()
                invariant
                    w <= dl.workloads@.len(),
                    node_ids@.contains(node_id),
                    node_ids@.len() > 0 ==> old(self).current_node_deployments@.contains_key(node_ids@[0]),
                    self.current_node_deployments@ == old(self).current_node_deployments@,
                    forall|i: int| 0 <= i < out@.len() ==> node_ids@.contains(#[trigger] out@[i].node_id),
                    named_deployment(old(self).nc_pool.node_held(node_id), old(self).substrate.contracts_view(), deployment_name@, dl@),
                    forall|i: int| 0 <= i < out@.len() ==> k8s_machine_fetch(
                        #[trigger] out@[i],
                        old(self).nc_pool.node_held(out@[i].node_id),
                        old(self).substrate.contracts_view(),
                        deployment_name@,
                    ),
                decreases dl.workloads.len() - w,
            {
                let wl = &dl.workloads[w];
                if str_eq(wl.workload_type.as_str(), zos::ZMACHINE_TYPE) {
                    let data = decode_k8s_machine_data(wl)?;
                    let key = ip_workload_name(wl.name.as_str());
                    let (ip, ipv6, ip6) = match last_public_ip(dl, key.as_str()) {
                        Some(p) => address_values(&p.result.data),
                        None => (None, None, None),
                    };
                    let ghost before = out@;
                    out.push(MachineFetch {
                        node_id,
                        name: wl.name.clone(),
                        flist: data.flist,
                        ip,
                        ipv6,
                        ip6,
                        interface_ip: data.interface_ip,
                    });
                    proof {
                        let held = old(self).nc_pool.node_held(node_id);
                        let cs = old(self).substrate.contracts_view();
                        let i = choose|i: int| #[trigger] first_deployment_named(held, cs, deployment_name@, i) && held[i] == dl@;
                        assert(held[i].workloads[w as int] == wl@);
                        assert(wl@.workload_type == zos::ZMACHINE_TYPE@);
                        assert(k8s_data_decodes(held[i].workloads[w as int].data));
                        assert(out@[before.len() as int].flist@ == crate::json::field_text(held[i].workloads[w as int].data, "flist"@).unwrap());
                        assert(out@[before.len() as int].name@ == held[i].workloads[w as int].name);
                        assert(held[i].workloads[w as int].workload_type == zos::ZMACHINE_TYPE@);
                        assert(k8s_machine_fetch(out@[before.len() as int], held, cs, deployment_name@));
                        assert forall|q: int| 0 <= q < out@.len() implies k8s_machine_fetch(
                            #[trigger] out@[q],
                            old(self).nc_pool.node_held(out@[q].node_id),
                            old(self).substrate.contracts_view(),
                            deployment_name@,
                        ) by {
                            if q < before.len() {
                                assert(out@[q] == before[q]);
                            }
                        }
                    }
                }
                w = w + 1;
            }
            d = d + 1;
        }
        Ok(out)
    }

    /// Kubernetes cluster `deployment_name`, read back from the deployments
    /// of that name on `node_ids`, with what was fetched for its machines:
    /// `inputs` holds one entry per machine, in the order `k8s_fetch` lists
    /// them. The master's deployment gives the cluster's solution type, every
    /// node's deployment its contract, and the cluster's network (loaded into
    /// the state) each node's IP range. Too few inputs is an error.
    #[verifier::rlimit(50)]
    pub fn load_k8s_from_grid(&mut self, node_ids: &[u32], deployment_name: &str, inputs: &Vec<MachineInputs>) -> (r: Result<workloads::K8sCluster, GridError>)
        ensures
            node_ids@.len() > 0 && !old(self).current_node_deployments@.contains_key(node_ids@[0]) ==> (r matches Err(e) && is_not_found(
                e,
                not_indexed(node_ids@[0]),
            )),
            r matches Ok(c) ==> c.master is Some,
            r matches Ok(c) ==> forall|n: u32| #[trigger] c.node_deployment_id@.contains_key(n) <==> node_ids@.contains(n),
            r matches Ok(c) ==> forall|n: u32| #[trigger] c.node_deployment_id@.contains_key(n) ==> contract_of_named(
                old(self).nc_pool.node_held(n),
                old(self).substrate.contracts_view(),
                deployment_name@,
                c.node_deployment_id@[n],
            ),
            r matches Ok(c) ==> exists|n: u32| node_ids@.contains(n) && #[trigger] project_of_named(
                old(self).nc_pool.node_held(n),
                old(self).substrate.contracts_view(),
                deployment_name@,
                c.solution_type@,
            ),
            r matches Ok(c) ==> exists|j: int| 0 <= j < inputs@.len() && #[trigger] k8s_node_of(
                c.master.unwrap(),
                node_ids@,
                old(self).nc_pool,
                old(self).substrate.contracts_view(),
                deployment_name@,
                inputs@[j],
                true,
            ),
            r matches Ok(c) ==> forall|i: int| 0 <= i < c.workers@.len() ==> exists|j: int| 0 <= j < inputs@.len() && k8s_node_of(
                #[trigger] c.workers@[i],
                node_ids@,
                old(self).nc_pool,
                old(self).substrate.contracts_view(),
                deployment_name@,
                inputs@[j],
                false,
            ),
            r matches Ok(c) ==> c.token@ == env_value(c.master.unwrap().vm.env_vars@, "K3S_TOKEN"@) && c.ssh_key@ == env_value(
                c.master.unwrap().vm.env_vars@,
                "SSH_KEY"@,
            ),
            r matches Ok(c) ==> final(self).networks.state@.contains_key(c.network_name@),
            r matches Ok(c) ==> forall|n: u32| cluster_node(c, n) ==> #[trigger] node_ids@.contains(n),
            r matches Ok(c) ==> forall|n: u32| #[trigger] c.nodes_ip_range@.contains_key(n) <==> cluster_node(c, n),
            r matches Ok(c) ==> forall|n: u32| #[trigger] c.nodes_ip_range@.contains_key(n) ==> c.nodes_ip_range@[n]@ == subnet_of(
                subnets_of(final(self).networks.state@, c.network_name@),
                n,
            ),
            final(self).current_node_deployments@ == old(self).current_node_deployments@,
    {
        let (deps, ids) = self.k8s_deployments(node_ids, deployment_name)?;
        let mut nodes: Vec<(workloads::K8sNode, Option<String>)> = Vec::new();
        let mut m: usize = 0;
        let mut d: usize = 0;
        while d < deps.len()
            invariant
                d <= deps@.len(),
                node_ids@.len() > 0 ==> old(self).current_node_deployments@.contains_key(node_ids@[0]),
                self.current_node_deployments@ == old(self).current_node_deployments@,
                self.substrate == old(self).substrate,
                m <= inputs@.len(),
                forall|j: int| 0 <= j < nodes@.len() ==> k8s_node_of(
                    #[trigger] nodes@[j].0,
                    node_ids@,
                    old(self).nc_pool,
                    old(self).substrate.contracts_view(),
                    deployment_name@,
                    inputs@[j],
                    nodes@[j].1 is Some,
                ),
                m == nodes@.len(),
                forall|j: int| 0 <= j < nodes@.len() ==> node_ids@.contains(#[trigger] nodes@[j].0.vm.node_id),
                forall|i: int| 0 <= i < deps@.len() ==> node_ids@.contains(#[trigger] deps@[i].0),
                forall|i: int| 0 <= i < deps@.len() ==> named_deployment(
                    old(self).nc_pool.node_held(#[trigger] deps@[i].0),
                    old(self).substrate.contracts_view(),
                    deployment_name@,
                    deps@[i].1@,
                ),
                forall|j: int| 0 <= j < nodes@.len() ==> (#[trigger] nodes@[j]).1 is Some ==> exists|n: u32| node_ids@.contains(n) && #[trigger] project_of_named(
                    old(self).nc_pool.node_held(n),
                    old(self).substrate.contracts_view(),
                    deployment_name@,
                    nodes@[j].1.unwrap()@,
                ),
            decreases deps.len() - d,
        {
            let node_id = deps[d].0;
            let dl = &deps[d].1;
            check_k8s_public_ips(dl)?;
            let table = k8s_disk_table(dl);
            let mut w: usize = 0;
            while w < dl.workloads.len()
                invariant
                    w <= dl.workloads@.len(),
                    node_ids@.len() > 0 ==> old(self).current_node_deployments@.contains_key(node_ids@[0]),
                    self.current_node_deployments@ == old(self).current_node_deployments@,
                    self.substrate == old(self).substrate,
                    m <= inputs@.len(),
                    node_ids@.contains(node_id),
                    size_views(table@) == disk_table(zmount_entries(dl@.workloads), dl@.workloads),
                    forall|j: int| 0 <= j < nodes@.len() ==> k8s_node_of(
                        #[trigger] nodes@[j].0,
                        node_ids@,
                        old(self).nc_pool,
                        old(self).substrate.contracts_view(),
                        deployment_name@,
                        inputs@[j],
                        nodes@[j].1 is Some,
                    ),
                    m == nodes@.len(),
                    forall|j: int| 0 <= j < nodes@.len() ==> node_ids@.contains(#[trigger] nodes@[j].0.vm.node_id),

                    named_deployment(old(self).nc_pool.node_held(node_id), old(self).substrate.contracts_view(), deployment_name@, dl@),
                    forall|j: int| 0 <= j < nodes@.len() ==> (#[trigger] nodes@[j]).1 is Some ==> exists|n: u32| node_ids@.contains(n) && #[trigger] project_of_named(
                        old(self).nc_pool.node_held(n),
                        old(self).substrate.contracts_view(),
                        deployment_name@,
                        nodes@[j].1.unwrap()@,
                    ),
                decreases dl.workloads.len() - w,
            {
                let wl = &dl.workloads[w];
                if str_eq(wl.workload_type.as_str(), zos::ZMACHINE_TYPE) {
                    let size = match find_size(&table, wl.name.as_str()) {
                        Some(n) => n,
                        None => 0,
                    };
                    let data = decode_k8s_machine_data(wl)?;
                    let runtime = decode_machine_runtime(&wl.result.data, false);
                    if m >= inputs.len() {
                        return Err(GridError::validation("fetched values are missing for a k8s machine"));
                    }
                    let inp = &inputs[m];
                    let node = k8s_node_from_machine(
                        wl,
                        node_id,
                        size,
                        inp.ip.as_str(),
                        inp.ip6.as_str(),
                        data,
                        runtime,
                        inp.interface_ip.clone(),
                        inp.flist_checksum.clone(),
                    );
                    let ghost before = nodes@;
                    if is_master_node(wl)? {
                        let meta = resolve_metadata(&self.substrate, dl)?;
                        let dd = parse_deployment_data(meta.as_str())?;
                        let ghost project = dd.project_name@;
                        proof {
                            let held = old(self).nc_pool.node_held(node_id);
                            let cs = old(self).substrate.contracts_view();
                            let i = choose|i: int| #[trigger] first_deployment_named(held, cs, deployment_name@, i) && held[i] == dl@;
                            assert(deployment_info(held[i], cs) matches Some(x) && x.3 == project);
                            assert(project_of_named(held, cs, deployment_name@, project));
                        }
                        nodes.push((node, Some(dd.project_name)));
                        proof {
                            assert(nodes@[before.len() as int].1.unwrap()@ == project);
                        }
                    } else {
                        nodes.push((node, None));
                    }
                    proof {
                        assert forall|j: int| 0 <= j < nodes@.len() implies (#[trigger] nodes@[j]).1 is Some ==> exists|n: u32| node_ids@.contains(n) && #[trigger] project_of_named(
                            old(self).nc_pool.node_held(n),
                            old(self).substrate.contracts_view(),
                            deployment_name@,
                            nodes@[j].1.unwrap()@,
                        ) by {
                            if j < before.len() {
                                assert(nodes@[j] == before[j]);
                            } else if nodes@[j].1 is Some {
                                assert(project_of_named(
                                    old(self).nc_pool.node_held(node_id),
                                    old(self).substrate.contracts_view(),
                                    deployment_name@,
                                    nodes@[j].1.unwrap()@,
                                ));
                            }
                        }
                    }
                    proof {
                        assert forall|j: int| 0 <= j < nodes@.len() implies node_ids@.contains(#[trigger] nodes@[j].0.vm.node_id) by {
                            if j < before.len() {
                                assert(nodes@[j] == before[j]);
                            }
                        }
                        let pool = old(self).nc_pool;
                        let cs = old(self).substrate.contracts_view();
                        assert(dl@.workloads[w as int] == wl@);
                        assert(k8s_node_read(nodes@[before.len() as int].0, dl@.workloads, w as int, node_id, inputs@[m as int], nodes@[before.len() as int].1 is Some));
                        assert(k8s_node_of(nodes@[before.len() as int].0, node_ids@, pool, cs, deployment_name@, inputs@[m as int], nodes@[before.len() as int].1 is Some));
                        assert forall|j: int| 0 <= j < nodes@.len() implies k8s_node_of(
                            #[trigger] nodes@[j].0,
                            node_ids@,
                            pool,
                            cs,
                            deployment_name@,
                            inputs@[j],
                            nodes@[j].1 is Some,
                        ) by {
                            if j < before.len() {
                                assert(nodes@[j] == before[j]);
                            }
                        }
                    }
                    m = m + 1;
                }
                w = w + 1;
            }
            d = d + 1;
        }
        let ghost ns = nodes@;
        proof {
            lemma_last_master_is_listed(ns);
            lemma_workers_are_listed(ns);
        }
        let mut cluster = assemble_k8s_cluster(nodes, ids, deployment_name)?;
        let ghost mm = last_master(ns).unwrap();
        let ghost j0 = choose|j: int| 0 <= j < ns.len() && #[trigger] ns[j] == mm && mm.1 is Some;
        proof {
            assert(ns[j0].1 is Some);
            assert(cluster.solution_type@ == ns[j0].1.unwrap()@);
        }
        let ghost n0 = choose|n: u32| node_ids@.contains(n) && #[trigger] project_of_named(
            old(self).nc_pool.node_held(n),
            old(self).substrate.contracts_view(),
            deployment_name@,
            ns[j0].1.unwrap()@,
        );
        let ghost sol = cluster.solution_type@;
        let net = cluster.network_name.clone();
        self.load_network_from_grid(net.as_str())?;
        let ghost before = cluster;
        self.assign_nodes_ip_range(&mut cluster)?;
        proof {
            assert(cluster.solution_type@ == sol);
            assert(cluster.master == Some(ns[j0].0));
            assert(k8s_node_of(ns[j0].0, node_ids@, old(self).nc_pool, old(self).substrate.contracts_view(), deployment_name@, inputs@[j0], true));
            assert forall|i: int| 0 <= i < cluster.workers@.len() implies exists|j: int| 0 <= j < inputs@.len() && k8s_node_of(
                #[trigger] cluster.workers@[i],
                node_ids@,
                old(self).nc_pool,
                old(self).substrate.contracts_view(),
                deployment_name@,
                inputs@[j],
                false,
            ) by {
                let j = choose|j: int| 0 <= j < ns.len() && #[trigger] ns[j].0 == workers_of(ns)[i] && ns[j].1 is None;
                assert(k8s_node_of(ns[j].0, node_ids@, old(self).nc_pool, old(self).substrate.contracts_view(), deployment_name@, inputs@[j], false));
            }
            assert forall|n: u32| cluster_node(cluster, n) implies #[trigger] node_ids@.contains(n) by {
                if cluster.master matches Some(q) && q.vm.node_id == n {
                    assert(ns[j0].0.vm.node_id == n);
                } else {
                    let i = choose|i: int| 0 <= i < cluster.workers@.len() && #[trigger] cluster.workers@[i].vm.node_id == n;
                    let j = choose|j: int| 0 <= j < ns.len() && #[trigger] ns[j].0 == workers_of(ns)[i];
                    assert(ns[j].0.vm.node_id == n);
                }
            }
            assert(node_ids@.contains(n0) && project_of_named(
                old(self).nc_pool.node_held(n0),
                old(self).substrate.contracts_view(),
                deployment_name@,
                cluster.solution_type@,
            ));
            assert forall|n: u32| cluster_node(before, n) <==> cluster_node(cluster, n) by {
                if cluster_node(before, n) && !(before.master matches Some(q) && q.vm.node_id == n) {
                    let i = choose|i: int| 0 <= i < before.workers@.len() && #[trigger] before.workers@[i].vm.node_id == n;
                    assert(cluster.workers@[i].vm.node_id == n);
                }
            }
        }
        Ok(cluster)
    }
}


impl<G: NodeClientGetter, S: SubstrateExt> State<G, S> {
    /// What must be fetched to read deployment `name` on `node_id` back: for
    /// each of its machines, in order, its flist and, for a full VM, the
    /// address values of its public IP workload when that runs. A workload
    /// that does not read is an error, as it is when loading.
    pub fn deployment_fetch(&mut self, node_id: u32, name: &str) -> (r: Result<Vec<MachineFetch>, GridError>)
        ensures
            !old(self).current_node_deployments@.contains_key(node_id) ==> (r matches Err(e) && is_not_found(e, not_indexed(node_id))),
            r matches Ok(v) ==> forall|i: int| 0 <= i < v@.len() ==> (#[trigger] v@[i]).node_id == node_id && v@[i].interface_ip is None,
            r matches Ok(v) ==> forall|i: int| 0 <= i < v@.len() ==> machine_fetch(
                #[trigger] v@[i],
                old(self).nc_pool.node_held(node_id),
                old(self).substrate.contracts_view(),
                name@,
            ),
            final(self).current_node_deployments@ == old(self).current_node_deployments@,
    {
        let (_, dl) = self.get_workload_in_deployment(node_id, "", name)?;
        let ghost held = old(self).nc_pool.node_held(node_id);
        let ghost cs = old(self).substrate.contracts_view();
        let ghost di = choose|i: int| #[trigger] first_deployment_named(held, cs, name@, i) && held[i] == dl@;
        let mut scratch = read_back_start(&dl, node_id)?;
        let mut out: Vec<MachineFetch> = Vec::new();
        let mut w: usize = 0;
        while w < dl.workloads.len()
            invariant
                w <= dl.workloads@.len(),
                old(self).current_node_deployments@.contains_key(node_id),
                self.current_node_deployments@ == old(self).current_node_deployments@,
                forall|i: int| 0 <= i < out@.len() ==> (#[trigger] out@[i]).node_id == node_id && out@[i].interface_ip is None,
                first_deployment_named(held, cs, name@, di) && held[di] == dl@,
                held == old(self).nc_pool.node_held(node_id),
                cs == old(self).substrate.contracts_view(),
                forall|i: int| 0 <= i < out@.len() ==> machine_fetch(#[trigger] out@[i], held, cs, name@),
            decreases dl.workloads.len() - w,
        {
            let wl = &dl.workloads[w];
            let ghost before = out@;
            match read_back_workload(&mut scratch, wl)? {
                ReadBackStep::Done => {},
                ReadBackStep::Vm => {
                    let data = decode_machine_data(&wl.data)?;
                    let (ip, ipv6, ip6) = vm_public_values(&dl, wl.name.as_str());
                    out.push(MachineFetch { node_id, name: wl.name.clone(), flist: data.flist, ip, ipv6, ip6, interface_ip: None });
                    proof {
                        assert(held[di].workloads[w as int] == wl@);
                        let k = before.len() as int;
                        assert(wl.workload_type@ == zos::ZMACHINE_TYPE@);
                        assert(held[di].workloads[w as int].workload_type == zos::ZMACHINE_TYPE@);
                        assert(0 <= w < held[di].workloads.len());
                        assert(held[di].workloads[w as int].name == out@[k].name@);
                        assert(machine_data_decodes(held[di].workloads[w as int].data));
                        assert(out@[k].flist@ == crate::json::field_text(held[di].workloads[w as int].data, "flist"@).unwrap());
                        assert(machine_fetch(out@[k], held, cs, name@));
                        assert forall|q: int| 0 <= q < out@.len() implies machine_fetch(#[trigger] out@[q], held, cs, name@) by {
                            if q < before.len() {
                                assert(out@[q] == before[q]);
                            }
                        }
                    }
                },
                ReadBackStep::VmLight => {
                    let data = decode_machine_data(&wl.data)?;
                    out.push(MachineFetch {
                        node_id,
                        name: wl.name.clone(),
                        flist: data.flist,
                        ip: None,
                        ipv6: None,
                        ip6: None,
                        interface_ip: None,
                    });
                    proof {
                        assert(held[di].workloads[w as int] == wl@);
                        let k = before.len() as int;
                        assert(wl.workload_type@ == zos::ZMACHINE_LIGHT_TYPE@);
                        assert(held[di].workloads[w as int].workload_type == zos::ZMACHINE_LIGHT_TYPE@);
                        assert(0 <= w < held[di].workloads.len());
                        assert(held[di].workloads[w as int].name == out@[k].name@);
                        assert(machine_data_decodes(held[di].workloads[w as int].data));
                        assert(out@[k].flist@ == crate::json::field_text(held[di].workloads[w as int].data, "flist"@).unwrap());
                        assert(machine_fetch(out@[k], held, cs, name@));
                        assert forall|q: int| 0 <= q < out@.len() implies machine_fetch(#[trigger] out@[q], held, cs, name@) by {
                            if q < before.len() {
                                assert(out@[q] == before[q]);
                            }
                        }
                    }
                },
            }
            w = w + 1;
        }
        Ok(out)
    }

    /// Deployment `name` on `node_id`, read back whole: its disks, volumes,
    /// zdbs, qsfs and machines, the machines with what was fetched for them
    /// (`inputs`, one entry per machine in the order `deployment_fetch` lists
    /// them), and the IP range of the node in the deployment's network, which
    /// is loaded into the state. Too few inputs is an error.
    #[verifier::rlimit(50)]
    pub fn load_deployment_from_grid(&mut self, node_id: u32, name: &str, inputs: &Vec<MachineInputs>) -> (r: Result<workloads::Deployment, GridError>)
        ensures
            !old(self).current_node_deployments@.contains_key(node_id) ==> (r matches Err(e) && is_not_found(e, not_indexed(node_id))),
            r matches Ok(out) ==> exists|i: int| {
                let d = old(self).nc_pool.node_held(node_id)[i];
                &&& #[trigger] first_deployment_named(old(self).nc_pool.node_held(node_id), old(self).substrate.contracts_view(), name@, i)
                &&& json_parse(d.metadata) matches Ok(v)
                &&& workloads::deployment_data_of(v) matches Some(dd)
                &&& out.name@ == dd.2
                &&& out.solution_type@ == dd.3
                &&& out.node_id == node_id
                &&& out.contract_id == d.contract_id
                &&& out.node_deployment_id@ == Map::<u32, u64>::empty().insert(node_id, d.contract_id)
            },
            r matches Ok(out) ==> ({
                let ws = dl_of(old(self).nc_pool.node_held(node_id), old(self).substrate.contracts_view(), name@).workloads;
                &&& out.vms@.len() == places_of(ws, zos::ZMACHINE_TYPE@).len()
                &&& forall|j: int| 0 <= j < out.vms@.len() ==> vm_from_fetched(
                    #[trigger] out.vms@[j],
                    ws[places_of(ws, zos::ZMACHINE_TYPE@)[j]],
                    node_id,
                    inputs@,
                )
                &&& out.vms_light@.len() == places_of(ws, zos::ZMACHINE_LIGHT_TYPE@).len()
                &&& forall|j: int| 0 <= j < out.vms_light@.len() ==> light_read_back(
                    #[trigger] out.vms_light@[j],
                    ws[places_of(ws, zos::ZMACHINE_LIGHT_TYPE@)[j]],
                    node_id,
                )
            }),
            r matches Ok(out) ==> out.network_name@.len() > 0 ==> out.ip_range@ == subnet_of(
                subnets_of(final(self).networks.state@, out.network_name@),
                node_id,
            ),
            final(self).current_node_deployments@ == old(self).current_node_deployments@,
    {
        let (_, dl) = self.get_workload_in_deployment(node_id, "", name)?;
        let ghost held = old(self).nc_pool.node_held(node_id);
        let ghost cs = old(self).substrate.contracts_view();
        proof {
            lemma_first_named_unique(held, cs, name@);
            let i = choose|i: int| #[trigger] first_deployment_named(held, cs, name@, i) && held[i] == dl@;
            assert(first_deployment_named(held, cs, name@, i));
            assert(dl_of(held, cs, name@) == dl@);
        }
        let mut output = read_back_start(&dl, node_id)?;
        let ghost start = output;
        let mut m: usize = 0;
        let mut w: usize = 0;
        while w < dl.workloads.len()
            invariant
                w <= dl.workloads@.len(),
                m <= inputs@.len(),
                same_deployment_frame(start, output),
                held == old(self).nc_pool.node_held(node_id),
                cs == old(self).substrate.contracts_view(),
                dl_of(held, cs, name@) == dl@,
                output.vms@.len() == places_of(dl@.workloads.take(w as int), zos::ZMACHINE_TYPE@).len(),
                forall|j: int| 0 <= j < output.vms@.len() ==> vm_from_fetched(
                    #[trigger] output.vms@[j],
                    dl@.workloads[places_of(dl@.workloads.take(w as int), zos::ZMACHINE_TYPE@)[j]],
                    node_id,
                    inputs@,
                ),
                output.vms_light@.len() == places_of(dl@.workloads.take(w as int), zos::ZMACHINE_LIGHT_TYPE@).len(),
                forall|j: int| 0 <= j < output.vms_light@.len() ==> light_read_back(#[trigger] output.vms_light@[j], dl@.workloads[places_of(dl@.workloads.take(w as int), zos::ZMACHINE_LIGHT_TYPE@)[j]], node_id),
                old(self).current_node_deployments@.contains_key(node_id),
                self.current_node_deployments@ == old(self).current_node_deployments@,
            decreases dl.workloads.len() - w,
        {
            let wl = &dl.workloads[w];
            let ghost prev = output;
            let ghost ws = dl@.workloads;
            let ghost pz = places_of(ws.take(w as int), zos::ZMACHINE_TYPE@);
            let ghost pl = places_of(ws.take(w as int), zos::ZMACHINE_LIGHT_TYPE@);
            proof {
                lemma_machine_kinds_differ();
                assert(ws.take(w as int + 1).drop_last() =~= ws.take(w as int));
                assert(ws.take(w as int + 1).last() == ws[w as int]);
                assert(ws[w as int] == wl@);
            }
            match read_back_workload(&mut output, wl)? {
                ReadBackStep::Done => {
                    assert(wl.workload_type@ != zos::ZMACHINE_TYPE@ && wl.workload_type@ != zos::ZMACHINE_LIGHT_TYPE@);
                    assert(places_of(ws.take(w as int + 1), zos::ZMACHINE_TYPE@) == pz);
                    assert(places_of(ws.take(w as int + 1), zos::ZMACHINE_LIGHT_TYPE@) == pl);
                    assert forall|j: int| 0 <= j < output.vms@.len() implies vm_from_fetched(
                        #[trigger] output.vms@[j],
                        dl@.workloads[places_of(dl@.workloads.take(w as int + 1), zos::ZMACHINE_TYPE@)[j]],
                        node_id,
                        inputs@,
                    ) by {
                        assert(output.vms@[j] == prev.vms@[j]);
                    }
                    assert forall|j: int| 0 <= j < output.vms_light@.len() implies light_read_back(#[trigger] output.vms_light@[j], dl@.workloads[places_of(dl@.workloads.take(w as int + 1), zos::ZMACHINE_LIGHT_TYPE@)[j]], node_id) by {
                        assert(output.vms_light@[j] == prev.vms_light@[j]);
                    }
                },
                ReadBackStep::Vm => {
                    let data = decode_machine_data(&wl.data)?;
                    let runtime = decode_machine_runtime(&wl.result.data, false);
                    if m >= inputs.len() {
                        return Err(GridError::validation("fetched values are missing for a machine"));
                    }
                    let inp = &inputs[m];
                    let public = (
                        inp.ip.clone(),
                        inp.ip6.clone(),
                        inp.ip.unicode_len() > 0,
                        inp.ip6.unicode_len() > 0,
                    );
                    let vm = vm_from_machine(wl, node_id, data, runtime, inp.flist_checksum.clone(), public);
                    let ghost before = output.vms@;
                    read_back_vm(&mut output, vm, node_id, wl.name.as_str());
                    proof {
                        assert(wl.workload_type@ == zos::ZMACHINE_TYPE@);
                        let np = places_of(ws.take(w as int + 1), zos::ZMACHINE_TYPE@);
                        assert(np == pz.push(w as int));
                        assert(places_of(ws.take(w as int + 1), zos::ZMACHINE_LIGHT_TYPE@) == pl);
                        let last = output.vms@.len() - 1;
                        assert(vm_read_back(output.vms@[last], ws[w as int], node_id, inputs@[m as int]));
                        assert forall|j: int| 0 <= j < output.vms@.len() implies vm_from_fetched(
                            #[trigger] output.vms@[j],
                            dl@.workloads[np[j]],
                            node_id,
                            inputs@,
                        ) by {
                            if j < before.len() {
                                assert(output.vms@[j] == before[j]);
                                assert(np[j] == pz[j]);
                            } else {
                                assert(np[j] == w as int);
                                assert(vm_read_back(output.vms@[j], ws[w as int], node_id, inputs@[m as int]));
                            }
                        }
                        assert forall|j: int| 0 <= j < output.vms_light@.len() implies light_read_back(#[trigger] output.vms_light@[j], dl@.workloads[places_of(dl@.workloads.take(w as int + 1), zos::ZMACHINE_LIGHT_TYPE@)[j]], node_id) by {
                            assert(output.vms_light@[j] == prev.vms_light@[j]);
                        }
                    }
                    m = m + 1;
                },
                ReadBackStep::VmLight => {
                    let data = decode_machine_data(&wl.data)?;
                    let runtime = decode_machine_runtime(&wl.result.data, true);
                    if m >= inputs.len() {
                        return Err(GridError::validation("fetched values are missing for a machine"));
                    }
                    let inp = &inputs[m];
                    let vm = vm_light_from_machine(wl, node_id, data, runtime, inp.flist_checksum.clone());
                    let ghost before = output.vms_light@;
                    read_back_vm_light(&mut output, vm, node_id, wl.name.as_str());
                    proof {
                        assert(wl.workload_type@ == zos::ZMACHINE_LIGHT_TYPE@);
                        let np = places_of(ws.take(w as int + 1), zos::ZMACHINE_LIGHT_TYPE@);
                        assert(np == pl.push(w as int));
                        assert(places_of(ws.take(w as int + 1), zos::ZMACHINE_TYPE@) == pz);
                        assert(output.vms@ == prev.vms@);
                        assert forall|j: int| 0 <= j < output.vms@.len() implies vm_from_fetched(
                            #[trigger] output.vms@[j],
                            dl@.workloads[places_of(dl@.workloads.take(w as int + 1), zos::ZMACHINE_TYPE@)[j]],
                            node_id,
                            inputs@,
                        ) by {
                            assert(output.vms@[j] == prev.vms@[j]);
                        }
                        assert forall|j: int| 0 <= j < output.vms_light@.len() implies light_read_back(#[trigger] output.vms_light@[j], dl@.workloads[np[j]], node_id) by {
                            if j < before.len() {
                                assert(output.vms_light@[j] == before[j]);
                                assert(np[j] == pl[j]);
                            } else {
                                assert(np[j] == w as int);
                            }
                        }
                    }
                    m = m + 1;
                },
            }
            w = w + 1;
        }
        let ghost read = output;
        self.apply_deployment_network(&mut output, node_id)?;
        assert(output.vms@ == read.vms@);
        assert(output.vms_light@ == read.vms_light@);
        proof {
            assert(dl@.workloads.take(dl@.workloads.len() as int) =~= dl@.workloads);
        }
        assert forall|j: int| 0 <= j < output.vms@.len() implies vm_from_fetched(
            #[trigger] output.vms@[j],
            dl@.workloads[places_of(dl@.workloads, zos::ZMACHINE_TYPE@)[j]],
            node_id,
            inputs@,
        ) by {
            assert(output.vms@[j] == read.vms@[j]);
        }
        assert forall|j: int| 0 <= j < output.vms_light@.len() implies light_read_back(#[trigger] output.vms_light@[j], dl@.workloads[places_of(dl@.workloads, zos::ZMACHINE_LIGHT_TYPE@)[j]], node_id) by {
            assert(output.vms_light@[j] == read.vms_light@[j]);
        }
        Ok(output)
    }
}

} // verus!
