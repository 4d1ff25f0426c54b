//! The decisions of the live grid client, apart from the I/O that feeds them:
//! when a node's workloads have settled, which relay answers are worth
//! retrying, which WireGuard port is free, what names and addresses a
//! deployment gets by default, and what a finished deployment reports.

use vstd::prelude::*;

use crate::error::GridError;
use crate::json::{
    field, field_text, json_str, json_u64, object_push, to_json_string, json_text, JsonModel,
    JsonNumber, JsonValue, member_models,
};
use crate::live::payload::{decoded_items, extract_workloads, payload_items};
use crate::text::{contains_text, decimal, push_decimal, str_contains, str_eq};
use crate::error::is_not_found;
use crate::json::member;
use crate::error::is_validation;
use crate::env_vars::EnvVars;
use crate::live::deployment::{
    build_network, build_network_light, build_vm, build_vm_light, deploy_views, mycelium_data,
    network_data, network_light_data, network_metadata_text, sent_workload, vm_light_workloads,
    vm_workloads, DeployDeployment, DeployWorkloadView,
};
use crate::live::types::{
    default_entrypoint, default_flist, default_requirements, is_default_vm_light, DeploymentOutcome, ExistingNetworkSpec,
    FullNetworkSpec, NetworkLightSpec, NetworkTarget, NodePlacement, VmDeployment,
    VmLightDeployment, VmLightSpec,
};
use crate::live::validate::{invalid_subnet_message, vm_ip_from_subnet, vm_ip_of};
use crate::text::{trim, trim_str};
use crate::zos::{SignatureRequest, GIGABYTE, MEGABYTE, NETWORK_LIGHT_TYPE, NETWORK_TYPE};
use crate::zos::{first_named, lemma_first_named, okay_state, position_named, workload_views, Workload, WorkloadView};

verus! {

/// States after which a workload does not change by itself.
pub open spec fn terminal_state(s: Seq<char>) -> bool {
    s == "error"@ || s == "deleted"@ || s == "paused"@ || s == "unchanged"@
}

/// A workload in state `ok`.
pub open spec fn is_ok(w: WorkloadView) -> bool {
    w.result.state == "ok"@
}

/// A list of workloads is final: one of them reached a terminal state, or the
/// list is not empty and the workloads in state `ok` all carry one name (and
/// there is at least one).
pub open spec fn settled(ws: Seq<WorkloadView>) -> bool {
    ||| exists|i: int| 0 <= i < ws.len() && terminal_state(#[trigger] ws[i].result.state)
    ||| {
        &&& ws.len() > 0
        &&& exists|i: int| 0 <= i < ws.len() && is_ok(#[trigger] ws[i])
        &&& forall|i: int, j: int| 0 <= i < ws.len() && 0 <= j < ws.len() && is_ok(#[trigger] ws[i]) && is_ok(#[trigger] ws[j]) ==> ws[i].name == ws[j].name
    }
}

fn is_terminal(state: &str) -> (r: bool)
    ensures
        r == terminal_state(state@),
{
    str_eq(state, "error") || str_eq(state, "deleted") || str_eq(state, "paused") || str_eq(state, "unchanged")
}

/// Whether the workloads a node reports are final (see [`settled`]).
pub fn workloads_settled(ws: &Vec<Workload>) -> (r: bool)
    ensures
        r == settled(workload_views(ws@)),
{
    let ghost v = workload_views(ws@);
    let mut first_ok: Option<usize> = None;
    let mut one_name = true;
    let mut i: usize = 0;
    while i < ws.len()
        invariant
            i <= ws@.len(),
            v == workload_views(ws@),
            v.len() == ws@.len(),
            forall|k: int| 0 <= k < i ==> !terminal_state(#[trigger] v[k].result.state),
            match first_ok {
                Some(f) => f < i && is_ok(v[f as int]) && forall|k: int| 0 <= k < f ==> !is_ok(#[trigger] v[k]),
                None => forall|k: int| 0 <= k < i ==> !is_ok(#[trigger] v[k]),
            },
            one_name == (forall|a: int, b: int| 0 <= a < i && 0 <= b < i && is_ok(#[trigger] v[a]) && is_ok(#[trigger] v[b]) ==> v[a].name == v[b].name),
        decreases ws.len() - i,
    {
        assert(v[i as int] == ws@[i as int]@);
        let state = ws[i].result.state.as_str();
        if is_terminal(state) {
            assert(terminal_state(v[i as int].result.state));
            return true;
        }
        if str_eq(state, "ok") {
            match first_ok {
                None => {
                    first_ok = Some(i);
                },
                Some(f) => {
                    let same = str_eq(ws[f].name.as_str(), ws[i].name.as_str());
                    assert(v[f as int] == ws@[f as int]@);
                    if !same {
                        one_name = false;
                    } else {
                        proof {
                            if one_name {
                                assert forall|a: int, b: int| 0 <= a < i + 1 && 0 <= b < i + 1 && is_ok(#[trigger] v[a]) && is_ok(#[trigger] v[b]) implies v[a].name == v[b].name by {
                                    if a < i && b == i {
                                        assert(v[a].name == v[f as int].name);
                                    } else if a == i && b < i {
                                        assert(v[b].name == v[f as int].name);
                                    }
                                }
                            }
                        }
                    }
                },
            }
        }
        i = i + 1;
    }
    match first_ok {
        Some(_) => one_name,
        None => false,
    }
}

/// Relay answers that only mean "not there yet" for `command`.
pub open spec fn retryable(message: Seq<char>, command: Seq<char>) -> bool {
    ||| contains_text(message, "deployment not found"@)
    ||| contains_text(message, "contract not found"@)
    ||| contains_text(message, "relay closed before "@ + command + " response"@)
    ||| contains_text(message, "rmb timeout for "@ + command)
}

/// Whether a backend message for `command` is worth retrying.
pub fn is_retryable(message: &str, command: &str) -> (r: bool)
    ensures
        r == retryable(message@, command@),
{
    let mut closed = String::from_str("relay closed before ");
    closed.append(command);
    closed.append(" response");
    let mut timeout = String::from_str("rmb timeout for ");
    timeout.append(command);
    str_contains(message, "deployment not found") || str_contains(message, "contract not found")
        || str_contains(message, closed.as_str()) || str_contains(message, timeout.as_str())
}

/// The RMB command that lists the changes of a deployment.
pub const CHANGES_COMMAND: &'static str = "zos.deployment.changes";

/// The RMB command that reads a deployment.
pub const GET_COMMAND: &'static str = "zos.deployment.get";

/// How many times a deployment is sent before giving up.
pub const DEPLOY_ATTEMPTS: u32 = 10;

/// How long, in seconds, a new contract is looked for on the grid proxy.
pub const CONTRACT_WAIT_SECS: u64 = 45;

/// Seconds between two looks for a new contract.
pub const CONTRACT_POLL_SECS: u64 = 1;

/// How long, in seconds, the workloads of a deployment are waited for.
pub const CHANGES_WAIT_SECS: u64 = 180;

/// How long, in seconds, a sent deployment is waited for before it is sent
/// again.
pub const CONFIRM_WAIT_SECS: u64 = 30;

/// Seconds between two polls of a node.
pub const POLL_INTERVAL_SECS: u64 = 2;

/// What to do after polling `zos.deployment.changes`.
#[derive(Debug)]
pub enum PollStep {
    /// The workloads have settled: return them.
    Done(Vec<Workload>),
    /// Read the deployment with `zos.deployment.get` instead.
    Fetch,
    /// Wait and poll again.
    Wait,
    /// Give up with this error.
    Fail(GridError),
}

/// The step after an answer to `zos.deployment.changes`: settled workloads are
/// done; an empty list, or a retryable backend error, asks for a read of the
/// deployment; other lists wait; other errors, and payloads that do not
/// decode, fail.
pub fn changes_step(answer: Result<JsonValue, GridError>) -> (r: PollStep)
    ensures
        match answer {
            Ok(p) => match decoded_items(payload_items(p@)) {
                Some(ws) => if settled(ws) {
                    r matches PollStep::Done(v) && workload_views(v@) == ws
                } else if ws.len() == 0 {
                    r is Fetch
                } else {
                    r is Wait
                },
                None => r matches PollStep::Fail(GridError::Codec(_)),
            },
            Err(GridError::Backend(m)) => if retryable(m@, CHANGES_COMMAND@) {
                r is Fetch
            } else {
                r matches PollStep::Fail(e) && e == GridError::Backend(m)
            },
            Err(e) => r matches PollStep::Fail(x) && x == e,
        },
{
    match answer {
        Ok(payload) => match extract_workloads(payload) {
            Ok(ws) => {
                if workloads_settled(&ws) {
                    PollStep::Done(ws)
                } else if ws.len() == 0 {
                    PollStep::Fetch
                } else {
                    PollStep::Wait
                }
            },
            Err(e) => PollStep::Fail(e),
        },
        Err(GridError::Backend(m)) => {
            if is_retryable(m.as_str(), CHANGES_COMMAND) {
                PollStep::Fetch
            } else {
                PollStep::Fail(GridError::Backend(m))
            }
        },
        Err(e) => PollStep::Fail(e),
    }
}

/// The message of a poll that ran out of time.
pub open spec fn changes_timeout_message(contract_id: u64) -> Seq<char> {
    "timed out waiting for deployment changes for contract "@ + decimal(contract_id as nat)
}

/// The message of a read that ran out of time.
pub open spec fn get_timeout_message(contract_id: u64) -> Seq<char> {
    "timed out waiting for deployment get for contract "@ + decimal(contract_id as nat)
}

fn message_with_number(prefix: &str, n: u64) -> (r: String)
    ensures
        r@ == prefix@ + decimal(n as nat),
{
    let mut out = String::from_str(prefix);
    push_decimal(&mut out, n);
    out
}

/// The error of a poll of `contract_id` that ran out of time.
pub fn changes_timeout(contract_id: u64) -> (r: GridError)
    ensures
        r matches GridError::Backend(m) && m@ == changes_timeout_message(contract_id),
{
    GridError::Backend(message_with_number("timed out waiting for deployment changes for contract ", contract_id))
}

/// The outcome of reading a deployment while waiting for its workloads:
/// settled workloads are returned; unsettled ones, or a retryable backend
/// error before the deadline, give `None`; a retryable error after the
/// deadline is a time-out; other errors, and payloads that do not decode,
/// are returned as they are.
pub fn get_step(answer: Result<JsonValue, GridError>, timed_out: bool, contract_id: u64) -> (r: Result<Option<Vec<Workload>>, GridError>)
    ensures
        match answer {
            Ok(p) => match decoded_items(payload_items(p@)) {
                Some(ws) => if settled(ws) {
                    r matches Ok(Some(v)) && workload_views(v@) == ws
                } else {
                    r matches Ok(None)
                },
                None => r matches Err(GridError::Codec(_)),
            },
            Err(GridError::Backend(m)) => if retryable(m@, GET_COMMAND@) {
                if timed_out {
                    r matches Err(GridError::Backend(t)) && t@ == get_timeout_message(contract_id)
                } else {
                    r matches Ok(None)
                }
            } else {
                r matches Err(e) && e == GridError::Backend(m)
            },
            Err(e) => r matches Err(x) && x == e,
        },
{
    match answer {
        Ok(payload) => {
            let ws = extract_workloads(payload)?;
            if workloads_settled(&ws) {
                Ok(Some(ws))
            } else {
                Ok(None)
            }
        },
        Err(GridError::Backend(m)) => {
            if is_retryable(m.as_str(), GET_COMMAND) {
                if timed_out {
                    Err(GridError::Backend(message_with_number("timed out waiting for deployment get for contract ", contract_id)))
                } else {
                    Ok(None)
                }
            } else {
                Err(GridError::Backend(m))
            }
        },
        Err(e) => Err(e),
    }
}

/// A deploy call answered that the deployment already exists.
pub open spec fn already_exists(answer: Result<(), GridError>) -> bool {
    answer matches Err(GridError::Backend(m)) && contains_text(m@, "exists"@)
}

/// Whether the answer to `zos.deployment.deploy` says the deployment is
/// already there, so that there is nothing left to confirm.
pub fn deploy_already_exists(answer: &Result<(), GridError>) -> (r: bool)
    ensures
        r == already_exists(*answer),
{
    match answer {
        Err(GridError::Backend(m)) => str_contains(m.as_str(), "exists"),
        _ => false,
    }
}

/// What a read of a freshly sent deployment tells.
#[derive(Debug)]
pub enum ConfirmStep {
    /// The node has the deployment.
    Visible,
    /// Not there yet: read again, or send again once the deadline passed.
    Retry,
    /// Give up with this error.
    Fail(GridError),
}

/// The step after reading a sent deployment: any answer means it is there; a
/// retryable backend error asks to retry; other errors fail.
pub fn confirm_step(answer: Result<JsonValue, GridError>) -> (r: ConfirmStep)
    ensures
        match answer {
            Ok(_) => r is Visible,
            Err(GridError::Backend(m)) => if retryable(m@, GET_COMMAND@) {
                r is Retry
            } else {
                r matches ConfirmStep::Fail(e) && e == GridError::Backend(m)
            },
            Err(e) => r matches ConfirmStep::Fail(x) && x == e,
        },
{
    match answer {
        Ok(_) => ConfirmStep::Visible,
        Err(GridError::Backend(m)) => {
            if is_retryable(m.as_str(), GET_COMMAND) {
                ConfirmStep::Retry
            } else {
                ConfirmStep::Fail(GridError::Backend(m))
            }
        },
        Err(e) => ConfirmStep::Fail(e),
    }
}

/// The message when a deployment never showed up on its node.
pub open spec fn not_visible_message(contract_id: u64) -> Seq<char> {
    "deployment "@ + decimal(contract_id as nat) + " did not appear on node"@
}

/// The error when the deployment of `contract_id` never showed up.
pub fn not_visible(contract_id: u64) -> (r: GridError)
    ensures
        r matches GridError::Backend(m) && m@ == not_visible_message(contract_id),
{
    let mut out = message_with_number("deployment ", contract_id);
    out.append(" did not appear on node");
    GridError::Backend(out)
}

/// The contracts a finished deployment holds, in the order they are
/// cancelled: the VM's, then the network's; a zero id stands for none.
pub open spec fn contracts_of(vm_contract_id: u64, network_contract_id: u64) -> Seq<u64> {
    let first = if vm_contract_id != 0 { seq![vm_contract_id] } else { Seq::empty() };
    if network_contract_id != 0 { first.push(network_contract_id) } else { first }
}

/// The contracts to cancel, and whose deployments to delete, for a
/// deployment outcome.
pub fn contracts_to_cancel(outcome: &DeploymentOutcome) -> (r: Vec<u64>)
    ensures
        r@ == contracts_of(outcome.vm_contract_id, outcome.network_contract_id),
{
    let mut out: Vec<u64> = Vec::new();
    if outcome.vm_contract_id != 0 {
        out.push(outcome.vm_contract_id);
    }
    if outcome.network_contract_id != 0 {
        out.push(outcome.network_contract_id);
    }
    assert(out@ =~= contracts_of(outcome.vm_contract_id, outcome.network_contract_id));
    out
}

/// The lowest WireGuard port tried.
pub const FIRST_WG_PORT: u16 = 1024;

/// One past the highest WireGuard port tried.
pub const WG_PORT_END: u16 = 32767;

/// The ports listed by `zos.network.list_wg_ports`: an array of integers
/// that fit `u16`; `None` for anything else.
pub open spec fn ports_of(v: JsonModel) -> Option<Seq<u16>> {
    match v {
        JsonModel::Array(items) => if forall|i: int| 0 <= i < items.len() ==> #[trigger] port_of(items[i]) is Some {
            Some(Seq::new(items.len(), |i: int| port_of(items[i]).unwrap()))
        } else {
            None
        },
        _ => None,
    }
}

/// A JSON integer that fits `u16`.
pub open spec fn port_of(v: JsonModel) -> Option<u16> {
    match v {
        JsonModel::Number(JsonNumber::PosInt(n)) => if n <= u16::MAX { Some(n as u16) } else { None },
        _ => None,
    }
}

/// The used WireGuard ports a node reported; a codec error when the answer
/// is not a list of ports.
pub fn used_wg_ports(answer: &JsonValue) -> (r: Result<Vec<u16>, GridError>)
    ensures
        match ports_of(answer@) {
            Some(ps) => r matches Ok(v) && v@ == ps,
            None => r matches Err(GridError::Codec(_)),
        },
{
    let items = match answer {
        JsonValue::Array(items) => items,
        _ => return Err(GridError::Codec(String::from_str("wireguard ports are not a list"))),
    };
    proof {
        crate::json::lemma_item_models_len(items@);
    }
    let ghost models = crate::json::item_models(items@);
    let mut out: Vec<u16> = Vec::new();
    let mut i: usize = 0;
    while i < items.len()
        invariant
            i <= items@.len(),
            models == crate::json::item_models(items@),
            answer@ == JsonModel::Array(models),
            models.len() == items@.len(),
            forall|j: int| 0 <= j < items@.len() ==> #[trigger] models[j] == crate::json::json_model(items@[j]),
            out@.len() == i,
            forall|j: int| 0 <= j < i ==> #[trigger] port_of(models[j]) == Some(out@[j]),
        decreases items.len() - i,
    {
        assert(models[i as int] == crate::json::json_model(items@[i as int]));
        match &items[i] {
            JsonValue::Number(JsonNumber::PosInt(n)) => {
                if *n <= 65535u64 {
                    out.push(*n as u16);
                } else {
                    assert(port_of(models[i as int]) is None);
                    return Err(GridError::Codec(String::from_str("wireguard port is not a u16")));
                }
            },
            _ => {
                assert(port_of(models[i as int]) is None);
                return Err(GridError::Codec(String::from_str("wireguard port is not a u16")));
            },
        }
        i = i + 1;
    }
    assert(out@ =~= Seq::new(models.len(), |k: int| port_of(models[k]).unwrap()));
    Ok(out)
}

/// `p` is the lowest port of the range that `used` does not hold.
pub open spec fn lowest_free_port(used: Seq<u16>, p: u16) -> bool {
    &&& FIRST_WG_PORT <= p < WG_PORT_END
    &&& !used.contains(p)
    &&& forall|q: u16| FIRST_WG_PORT <= q < p ==> used.contains(q)
}

/// The lowest port in `[1024, 32767)` not in `used`; a backend error when
/// every one of them is used.
pub fn first_free_port(used: &Vec<u16>) -> (r: Result<u16, GridError>)
    ensures
        match r {
            Ok(p) => lowest_free_port(used@, p),
            Err(e) => (e matches GridError::Backend(m) && m@ == "no free wireguard port found"@)
                && forall|q: u16| FIRST_WG_PORT <= q < WG_PORT_END ==> used@.contains(q),
        },
{
    let mut port: u16 = FIRST_WG_PORT;
    while port < WG_PORT_END
        invariant
            FIRST_WG_PORT <= port <= WG_PORT_END,
            forall|q: u16| FIRST_WG_PORT <= q < port ==> used@.contains(q),
        decreases WG_PORT_END - port,
    {
        let mut taken = false;
        let mut i: usize = 0;
        while i < used.len()
            invariant
                i <= used@.len(),
                taken == exists|k: int| 0 <= k < i && used@[k] == port,
            decreases used.len() - i,
        {
            if used[i] == port {
                taken = true;
            }
            i = i + 1;
        }
        if !taken {
            return Ok(port);
        }
        port = port + 1;
    }
    Err(GridError::backend("no free wireguard port found"))
}

/// `prefix` followed by the decimal digits of `suffix`.
pub open spec fn suffixed(prefix: Seq<char>, suffix: u64) -> Seq<char> {
    prefix + decimal(suffix as nat)
}

fn suffixed_name(prefix: &str, suffix: u64) -> (r: String)
    ensures
        r@ == suffixed(prefix@, suffix),
{
    message_with_number(prefix, suffix)
}

/// The second octet of default addresses: 10 plus the suffix modulo 180.
pub open spec fn default_octet(suffix: u64) -> nat {
    (10 + suffix % 180) as nat
}

/// The default subnet of a network created at `suffix`.
pub open spec fn default_subnet(suffix: u64) -> Seq<char> {
    "10."@ + decimal(default_octet(suffix)) + ".2.0/24"@
}

/// The default IP range of a full network created at `suffix`.
pub open spec fn default_ip_range(suffix: u64) -> Seq<char> {
    "10."@ + decimal(default_octet(suffix)) + ".0.0/16"@
}

fn octet_text(prefix: &str, suffix: u64, rest: &str) -> (r: String)
    ensures
        r@ == prefix@ + decimal(default_octet(suffix)) + rest@,
{
    let mut out = String::from_str(prefix);
    push_decimal(&mut out, 10 + suffix % 180);
    out.append(rest);
    out
}

/// The value of an optional name, or the given default.
pub open spec fn given_or(o: Option<String>, d: Seq<char>) -> Seq<char> {
    match o {
        Some(s) => s@,
        None => d,
    }
}

fn text_or(o: &Option<String>, d: String) -> (r: String)
    ensures
        r@ == given_or(*o, d@),
{
    match o {
        Some(s) => s.clone(),
        None => d,
    }
}

/// Names chosen for a light VM deployment.
#[derive(Debug, Clone)]
pub struct DerivedNames {
    pub vm_name: String,
}

/// The VM name of a light deployment: the requested one, or
/// `rust_vm_light_` and the suffix.
pub fn derived_names(request: &VmLightDeployment, suffix: u64) -> (r: DerivedNames)
    ensures
        r.vm_name@ == given_or(request.vm.name, suffixed("rust_vm_light_"@, suffix)),
{
    DerivedNames { vm_name: text_or(&request.vm.name, suffixed_name("rust_vm_light_", suffix)) }
}

/// The name of a light network to create: the requested one, or
/// `rust_net_light_` and the suffix.
pub fn light_network_name(spec: &NetworkLightSpec, suffix: u64) -> (r: String)
    ensures
        r@ == given_or(spec.name, suffixed("rust_net_light_"@, suffix)),
{
    text_or(&spec.name, suffixed_name("rust_net_light_", suffix))
}

/// The subnet of a light network to create: the requested one, or the
/// default for the suffix.
pub fn light_network_subnet(spec: &NetworkLightSpec, suffix: u64) -> (r: String)
    ensures
        r@ == given_or(spec.subnet, default_subnet(suffix)),
{
    text_or(&spec.subnet, octet_text("10.", suffix, ".2.0/24"))
}

/// The VM name of a full deployment: the requested one, or `rust_vm_` and the
/// suffix.
pub fn full_vm_name(request: &VmDeployment, suffix: u64) -> (r: String)
    ensures
        r@ == given_or(request.vm.name, suffixed("rust_vm_"@, suffix)),
{
    text_or(&request.vm.name, suffixed_name("rust_vm_", suffix))
}

/// The name of a full network to create: the requested one, or `rust_net_`
/// and the suffix.
pub fn full_network_name(spec: &FullNetworkSpec, suffix: u64) -> (r: String)
    ensures
        r@ == given_or(spec.name, suffixed("rust_net_"@, suffix)),
{
    text_or(&spec.name, suffixed_name("rust_net_", suffix))
}

/// The IP range of a full network to create: the requested one, or the
/// default for the suffix.
pub fn full_network_ip_range(spec: &FullNetworkSpec, suffix: u64) -> (r: String)
    ensures
        r@ == given_or(spec.ip_range, default_ip_range(suffix)),
{
    text_or(&spec.ip_range, octet_text("10.", suffix, ".0.0/16"))
}

/// The subnet of a full network to create: the requested one, or the default
/// for the suffix.
pub fn full_network_subnet(spec: &FullNetworkSpec, suffix: u64) -> (r: String)
    ensures
        r@ == given_or(spec.subnet, default_subnet(suffix)),
{
    text_or(&spec.subnet, octet_text("10.", suffix, ".2.0/24"))
}

/// The metadata of a deployment the client creates.
pub open spec fn metadata_of(name: Seq<char>, kind: Seq<char>, project_name: Seq<char>) -> JsonModel {
    JsonModel::Object(
        seq![
            ("version"@, JsonModel::Number(JsonNumber::PosInt(4))),
            ("type"@, JsonModel::Str(kind)),
            ("name"@, JsonModel::Str(name)),
            ("projectName"@, JsonModel::Str(project_name)),
        ],
    )
}

/// The metadata text of a deployment: version 4, its type, name and project.
pub fn deployment_metadata(name: &str, kind: &str, project_name: &str) -> (r: String)
    ensures
        r@ == json_text(metadata_of(name@, kind@, project_name@)),
{
    let mut m: Vec<(String, JsonValue)> = Vec::new();
    object_push(&mut m, "version", JsonValue::Number(JsonNumber::PosInt(4)));
    object_push(&mut m, "type", json_str(kind));
    object_push(&mut m, "name", json_str(name));
    object_push(&mut m, "projectName", json_str(project_name));
    assert(member_models(m@) =~= match metadata_of(name@, kind@, project_name@) {
        JsonModel::Object(ms) => ms,
        _ => Seq::empty(),
    });
    to_json_string(&JsonValue::Object(m))
}

/// The address held by a public IP field: a non-empty string, or the string
/// member `ip` of an object.
pub open spec fn ip_value(v: Option<JsonModel>) -> Option<Seq<char>> {
    match v {
        Some(JsonModel::Str(s)) => if s.len() > 0 { Some(s) } else { None },
        Some(JsonModel::Object(ms)) => match member(ms, "ip"@) {
            Some(JsonModel::Str(s)) => Some(s),
            _ => None,
        },
        _ => None,
    }
}

/// The view of an optional reference to a value.
pub open spec fn opt_model(v: Option<&JsonValue>) -> Option<JsonModel> {
    match v {
        Some(x) => Some(x@),
        None => None,
    }
}

/// The address a public IP field holds (see [`ip_value`]).
pub fn extract_ip_value(value: Option<&JsonValue>) -> (r: Option<String>)
    ensures
        match ip_value(opt_model(value)) {
            Some(t) => r matches Some(s) && s@ == t,
            None => r is None,
        },
{
    match value {
        Some(JsonValue::String(ip)) => {
            if ip.unicode_len() > 0 {
                Some(ip.clone())
            } else {
                None
            }
        },
        Some(v) => match v {
            JsonValue::Object(_) => match v.get("ip") {
                Some(JsonValue::String(ip)) => Some(ip.clone()),
                _ => None,
            },
            _ => None,
        },
        None => None,
    }
}

/// A text, or the empty text.
pub open spec fn or_empty(o: Option<Seq<char>>) -> Seq<char> {
    match o {
        Some(s) => s,
        None => Seq::empty(),
    }
}

fn string_or_empty(o: Option<String>) -> (r: String)
    ensures
        r@ == or_empty(match o {
            Some(s) => Some(s@),
            None => None,
        }),
{
    match o {
        Some(s) => s,
        None => String::new(),
    }
}

/// The IPv4 and IPv6 addresses of the public IP workload of `name` (the
/// workload named `name` + `ip`) when it is running; empty texts otherwise.
pub open spec fn public_ips_of(ws: Seq<WorkloadView>, name: Seq<char>) -> (Seq<char>, Seq<char>) {
    match first_named(ws, name + "ip"@) {
        Some(i) => if okay_state(ws[i].result.state) {
            let d = ws[i].result.data;
            let v6 = match ip_value(field(d, "ipv6"@)) {
                Some(x) => Some(x),
                None => ip_value(field(d, "ip6"@)),
            };
            (or_empty(ip_value(field(d, "ip"@))), or_empty(v6))
        } else {
            (Seq::empty(), Seq::empty())
        },
        None => (Seq::empty(), Seq::empty()),
    }
}

/// The public addresses of the VM `workload_name` among `workloads`.
pub fn resolve_public_ips_from_workloads(workloads: &Vec<Workload>, workload_name: &str) -> (r: (String, String))
    ensures
        (r.0@, r.1@) == public_ips_of(workload_views(workloads@), workload_name@),
{
    let mut ip_name = String::from_str(workload_name);
    ip_name.append("ip");
    assert(ip_name@ == workload_name@ + "ip"@);
    let ghost ws = workload_views(workloads@);
    match position_named(workloads, ip_name.as_str()) {
        None => (String::new(), String::new()),
        Some(i) => {
            proof {
                lemma_first_named(workload_views(workloads@), ip_name@);
                assert(workload_views(workloads@)[i as int] == workloads@[i as int]@);
            }
            let wl = &workloads[i];
            assert(first_named(ws, workload_name@ + "ip"@) == Some(i as int));
            if !wl.result.is_okay() {
                assert(!okay_state(ws[i as int].result.state));
                let e = (String::new(), String::new());
                assert(e.0@ =~= Seq::<char>::empty());
                assert(e.1@ =~= Seq::<char>::empty());
                return e;
            }
            let data = &wl.result.data;
            let v4 = extract_ip_value(data.get("ip"));
            let v6 = match extract_ip_value(data.get("ipv6")) {
                Some(x) => Some(x),
                None => extract_ip_value(data.get("ip6")),
            };
            (string_or_empty(v4), string_or_empty(v6))
        },
    }
}

/// Some workload of `ws` is in state `error`.
pub open spec fn any_error(ws: Seq<WorkloadView>) -> bool {
    exists|k: int| 0 <= k < ws.len() && #[trigger] ws[k].result.state == "error"@
}

fn has_error_state(ws: &Vec<Workload>) -> (r: bool)
    ensures
        r == any_error(workload_views(ws@)),
{
    let ghost v = workload_views(ws@);
    let mut i: usize = 0;
    while i < ws.len()
        invariant
            i <= ws@.len(),
            v == workload_views(ws@),
            v.len() == ws@.len(),
            forall|k: int| 0 <= k < i ==> #[trigger] v[k].result.state != "error"@,
        decreases ws.len() - i,
    {
        assert(v[i as int] == ws@[i as int]@);
        if str_eq(ws[i].result.state.as_str(), "error") {
            assert(v[i as int].result.state == "error"@);
            return true;
        }
        i = i + 1;
    }
    false
}

/// Where a deployment went and under which contracts.
#[derive(Debug, Clone)]
pub struct Placement {
    pub node_id: u32,
    pub node_twin_id: u32,
    pub network_name: String,
    pub network_contract_id: u64,
    pub vm_name: String,
    pub vm_contract_id: u64,
    pub vm_ip: String,
}

/// The report of a finished deployment, from where it went, the deployment
/// the node returned (`vm_state`) and the settled workload changes: a codec
/// error when `vm_state` does not decode, not found when it holds no workload
/// named as the VM, a backend error when a change is in state `error`;
/// otherwise the VM's mycelium IP and console URL, and, when
/// `with_public_ips`, its public addresses.
#[verifier::rlimit(40)]
pub fn vm_outcome(placement: Placement, vm_state: JsonValue, vm_changes: &Vec<Workload>, with_public_ips: bool) -> (r: Result<DeploymentOutcome, GridError>)
    ensures
        match decoded_items(payload_items(vm_state@)) {
            None => r matches Err(GridError::Codec(_)),
            Some(ws) => match first_named(ws, placement.vm_name@) {
                None => r matches Err(e) && is_not_found(e, "vm workload "@ + placement.vm_name@),
                Some(i) => if any_error(workload_views(vm_changes@)) {
                    r matches Err(GridError::Backend(m)) && m@ == "vm deployment entered error state"@
                } else {
                    r matches Ok(o) && {
                        &&& o.node_id == placement.node_id
                        &&& o.node_twin_id == placement.node_twin_id
                        &&& o.network_name@ == placement.network_name@
                        &&& o.network_contract_id == placement.network_contract_id
                        &&& o.vm_name@ == placement.vm_name@
                        &&& o.vm_contract_id == placement.vm_contract_id
                        &&& o.vm_ip@ == placement.vm_ip@
                        &&& o.mycelium_ip@ == or_empty(field_text(ws[i].result.data, "mycelium_ip"@))
                        &&& o.console_url@ == or_empty(field_text(ws[i].result.data, "console_url"@))
                        &&& with_public_ips ==> (o.public_ipv4@, o.public_ipv6@) == public_ips_of(ws, placement.vm_name@)
                        &&& !with_public_ips ==> o.public_ipv4@.len() == 0 && o.public_ipv6@.len() == 0
                    }
                },
            },
        },
{
    let workloads = extract_workloads(vm_state)?;
    let ghost ws = workload_views(workloads@);
    proof {
        lemma_first_named(ws, placement.vm_name@);
    }
    let i = match position_named(&workloads, placement.vm_name.as_str()) {
        Some(i) => i,
        None => {
            let mut msg = String::from_str("vm workload ");
            msg.append(placement.vm_name.as_str());
            return Err(GridError::NotFound(msg));
        },
    };
    proof {
        assert(ws[i as int] == workloads@[i as int]@);
    }
    let data = &workloads[i].result.data;
    let mycelium_ip = match crate::json::get_text(data, "mycelium_ip") {
        Some(t) => String::from_str(t),
        None => String::new(),
    };
    let console_url = match crate::json::get_text(data, "console_url") {
        Some(t) => String::from_str(t),
        None => String::new(),
    };
    let (public_ipv4, public_ipv6) = if with_public_ips {
        resolve_public_ips_from_workloads(&workloads, placement.vm_name.as_str())
    } else {
        (String::new(), String::new())
    };
    if has_error_state(vm_changes) {
        return Err(GridError::backend("vm deployment entered error state"));
    }
    Ok(DeploymentOutcome {
        node_id: placement.node_id,
        node_twin_id: placement.node_twin_id,
        network_name: placement.network_name,
        network_contract_id: placement.network_contract_id,
        vm_name: placement.vm_name,
        vm_contract_id: placement.vm_contract_id,
        vm_ip: placement.vm_ip,
        mycelium_ip,
        public_ipv4,
        public_ipv6,
        console_url,
    })
}

/// `d` is a deployment as [`DeployDeployment::new`] makes it: by `twin_id`,
/// with `metadata` and the given workloads, unsigned and without a contract.
pub open spec fn fresh_deployment(d: DeployDeployment, twin_id: u32, metadata: Seq<char>, workloads: Seq<DeployWorkloadView>) -> bool {
    &&& d.version == 0
    &&& d.twin_id == twin_id
    &&& d.contract_id == 0
    &&& d.metadata@ == metadata
    &&& d.description@.len() == 0
    &&& d.expiration == 0
    &&& d.signature_requirement.requests@ == seq![SignatureRequest { twin_id, required: false, weight: 1 }]
    &&& d.signature_requirement.weight_required == 1
    &&& d.signature_requirement.signatures@.len() == 0
    &&& d.signature_requirement.signature_style@.len() == 0
    &&& deploy_views(d.workloads@) == workloads
}

/// The network to create for a VM: its name, the VM's address in it, and the
/// deployment that creates it.
#[derive(Debug)]
pub struct NetworkPlan {
    pub name: String,
    pub vm_ip: String,
    pub deployment: DeployDeployment,
}

/// The mycelium key of a light network: the requested one, or `fresh`.
pub open spec fn key_or(o: Option<Vec<u8>>, fresh: Seq<u8>) -> Seq<u8> {
    match o {
        Some(k) => k@,
        None => fresh,
    }
}

/// The light network a `vm-light` deployment creates at `suffix`: named and
/// addressed as requested or by default, with the requested mycelium key or
/// `fresh_key`; a validation error when the subnet has no VM address.
pub fn plan_network_light(spec: &NetworkLightSpec, suffix: u64, fresh_key: Vec<u8>, twin_id: u32) -> (r: Result<NetworkPlan, GridError>)
    ensures
        ({
            let name = given_or(spec.name, suffixed("rust_net_light_"@, suffix));
            let subnet = given_or(spec.subnet, default_subnet(suffix));
            match vm_ip_of(subnet) {
                None => r matches Err(e) && is_validation(e, invalid_subnet_message(subnet)),
                Some(ip) => r matches Ok(p) && p.name@ == name && p.vm_ip@ == ip && fresh_deployment(
                    p.deployment,
                    twin_id,
                    json_text(metadata_of(name, "network-light"@, "Network"@)),
                    seq![sent_workload(
                        name,
                        NETWORK_LIGHT_TYPE@,
                        network_light_data(subnet, key_or(spec.mycelium_key, fresh_key@)),
                        network_metadata_text(),
                        "network to deploy vm with mycelium"@,
                    )],
                ),
            }
        }),
{
    let name = light_network_name(spec, suffix);
    let subnet = light_network_subnet(spec, suffix);
    let vm_ip = vm_ip_from_subnet(subnet.as_str())?;
    let key = match &spec.mycelium_key {
        Some(k) => k.clone(),
        None => fresh_key,
    };
    let network = build_network_light(name.as_str(), subnet.as_str(), key);
    let metadata = deployment_metadata(name.as_str(), "network-light", "Network");
    let mut workloads: Vec<crate::live::deployment::DeployWorkload> = Vec::new();
    workloads.push(network);
    assert(deploy_views(workloads@) =~= seq![network@]);
    let deployment = DeployDeployment::new(twin_id, metadata, workloads);
    Ok(NetworkPlan { name, vm_ip, deployment })
}

/// The listen port of a full network: the requested one, or the port found
/// free on the node.
pub open spec fn port_or(o: Option<u16>, free_port: u16) -> u16 {
    match o {
        Some(p) => p,
        None => free_port,
    }
}

/// The WireGuard key of a full network: the requested one, or `fresh`.
pub open spec fn wg_key_or(o: Option<String>, fresh: Seq<char>) -> Seq<char> {
    match o {
        Some(k) => k@,
        None => fresh,
    }
}

/// The mycelium key of a full network, if one was requested.
pub open spec fn opt_key(o: Option<Vec<u8>>) -> Option<Seq<u8>> {
    match o {
        Some(k) => Some(k@),
        None => None,
    }
}

/// The full network a VM deployment creates at `suffix`: named and addressed
/// as requested or by default, listening on the requested port or
/// `free_port`, with the requested WireGuard key or `fresh_wg_key`; a
/// validation error when the subnet has no VM address.
pub fn plan_network(spec: &FullNetworkSpec, suffix: u64, free_port: u16, fresh_wg_key: String, twin_id: u32) -> (r: Result<NetworkPlan, GridError>)
    ensures
        ({
            let name = given_or(spec.name, suffixed("rust_net_"@, suffix));
            let ip_range = given_or(spec.ip_range, default_ip_range(suffix));
            let subnet = given_or(spec.subnet, default_subnet(suffix));
            match vm_ip_of(subnet) {
                None => r matches Err(e) && is_validation(e, invalid_subnet_message(subnet)),
                Some(ip) => r matches Ok(p) && p.name@ == name && p.vm_ip@ == ip && fresh_deployment(
                    p.deployment,
                    twin_id,
                    json_text(metadata_of(name, "network"@, "Network"@)),
                    seq![sent_workload(
                        name,
                        NETWORK_TYPE@,
                        network_data(
                            ip_range,
                            subnet,
                            wg_key_or(spec.wireguard_private_key, fresh_wg_key@),
                            port_or(spec.wireguard_listen_port, free_port),
                            opt_key(spec.mycelium_key),
                        ),
                        network_metadata_text(),
                        "network to deploy vm"@,
                    )],
                ),
            }
        }),
{
    let name = full_network_name(spec, suffix);
    let ip_range = full_network_ip_range(spec, suffix);
    let subnet = full_network_subnet(spec, suffix);
    let vm_ip = vm_ip_from_subnet(subnet.as_str())?;
    let port = match spec.wireguard_listen_port {
        Some(p) => p,
        None => free_port,
    };
    let wg_key = match &spec.wireguard_private_key {
        Some(k) => k.clone(),
        None => fresh_wg_key,
    };
    let network = build_network(name.as_str(), ip_range.as_str(), subnet.as_str(), wg_key, port, spec.mycelium_key.clone());
    let metadata = deployment_metadata(name.as_str(), "network", "Network");
    let mut workloads: Vec<crate::live::deployment::DeployWorkload> = Vec::new();
    workloads.push(network);
    assert(deploy_views(workloads@) =~= seq![network@]);
    let deployment = DeployDeployment::new(twin_id, metadata, workloads);
    Ok(NetworkPlan { name, vm_ip, deployment })
}

/// The deployment of a light VM named `vm_name` at `vm_ip` in
/// `network_name`: its workloads with the requested mycelium seed or a fresh
/// random one, under the metadata of a `vm-light` of that name.
pub fn plan_vm_light(request: &VmLightDeployment, vm_name: &str, network_name: &str, vm_ip: &str, twin_id: u32) -> (r: DeployDeployment)
    ensures
        exists|seed: Seq<u8>| #[trigger] fresh_deployment(
            r,
            twin_id,
            json_text(metadata_of(vm_name@, "vm-light"@, vm_name@)),
            vm_light_workloads(vm_name@, network_name@, vm_ip@, seed, request.vm),
        ) && (request.vm.mycelium_seed matches Some(s) ==> seed == s@) && (request.vm.mycelium_seed is None ==> seed.len()
            == crate::zos::MYCELIUM_IP_SEED_LEN),
{
    let workloads = build_vm_light(vm_name, network_name, vm_ip, &request.vm);
    let metadata = deployment_metadata(vm_name, "vm-light", vm_name);
    let d = DeployDeployment::new(twin_id, metadata, workloads);
    proof {
        if request.vm.mycelium_seed is Some {
            let s = request.vm.mycelium_seed.unwrap();
            assert(fresh_deployment(d, twin_id, json_text(metadata_of(vm_name@, "vm-light"@, vm_name@)), vm_light_workloads(vm_name@, network_name@, vm_ip@, s@, request.vm)));
        } else {
            let seed = choose|seed: Seq<u8>| seed.len() == crate::zos::MYCELIUM_IP_SEED_LEN && deploy_views(workloads@) == #[trigger] vm_light_workloads(vm_name@, network_name@, vm_ip@, seed, request.vm);
            assert(fresh_deployment(d, twin_id, json_text(metadata_of(vm_name@, "vm-light"@, vm_name@)), vm_light_workloads(vm_name@, network_name@, vm_ip@, seed, request.vm)));
        }
    }
    d
}

/// The deployment of a full VM named `vm_name` at `vm_ip` in `network_name`,
/// under the metadata of a `vm` of that name.
pub fn plan_vm(request: &VmDeployment, vm_name: &str, network_name: &str, vm_ip: &str, twin_id: u32) -> (r: DeployDeployment)
    ensures
        fresh_deployment(
            r,
            twin_id,
            json_text(metadata_of(vm_name@, "vm"@, vm_name@)),
            vm_workloads(vm_name@, network_name@, vm_ip@, request.vm),
        ),
{
    let workloads = build_vm(vm_name, network_name, vm_ip, &request.vm);
    let metadata = deployment_metadata(vm_name, "vm", vm_name);
    DeployDeployment::new(twin_id, metadata, workloads)
}

/// The environment of a quick VM: `SSH_KEY` set to the trimmed key when one is
/// given and not blank.
pub open spec fn ssh_env(ssh_key: Option<&str>) -> Map<Seq<char>, Seq<char>> {
    match ssh_key {
        Some(k) => if trim(k@).len() > 0 {
            Map::<Seq<char>, Seq<char>>::empty().insert("SSH_KEY"@, trim(k@))
        } else {
            Map::empty()
        },
        None => Map::empty(),
    }
}

/// `s` is the default light VM except for an environment from `ssh_key`.
pub open spec fn is_quick_vm(s: VmLightSpec, ssh_key: Option<&str>) -> bool {
    &&& s.name is None
    &&& s.flist@ == default_flist()
    &&& s.cpu == 1
    &&& s.memory_bytes == 1024 * MEGABYTE
    &&& s.rootfs_size_bytes == 10 * GIGABYTE
    &&& s.entrypoint@ == default_entrypoint()
    &&& s.env@ == ssh_env(ssh_key)
    &&& s.mounts@.len() == 0
    &&& s.volumes@.len() == 0
    &&& !s.corex
    &&& s.gpu@.len() == 0
    &&& s.mycelium_seed is None
}

fn quick_vm(ssh_key: Option<&str>) -> (r: VmLightSpec)
    ensures
        is_quick_vm(r, ssh_key),
{
    let mut vm = VmLightSpec::default();
    if let Some(key) = ssh_key {
        let trimmed = trim_str(key);
        if trimmed.unicode_len() > 0 {
            vm.env.insert(String::from_str("SSH_KEY"), trimmed);
        }
    }
    vm
}

/// The request of a quick VM: the default light VM, with `SSH_KEY` set from
/// a non-blank key, on a new default light network, placed automatically.
pub fn small_vm_request(ssh_key: Option<&str>) -> (r: VmLightDeployment)
    ensures
        r.placement == NodePlacement::Auto(default_requirements()),
        r.network matches NetworkTarget::Create(n) && n.name is None && n.subnet is None && n.mycelium_key is None,
        is_quick_vm(r.vm, ssh_key),
{
    VmLightDeployment {
        placement: NodePlacement::default(),
        network: NetworkTarget::Create(NetworkLightSpec::default()),
        vm: quick_vm(ssh_key),
    }
}

/// The request of a quick VM joining the network `network_name` at `vm_ip`
/// on a given node.
pub fn existing_network_request(node_id: u32, node_twin_id: u32, network_name: &str, vm_ip: &str, ssh_key: Option<&str>) -> (r: VmLightDeployment)
    ensures
        r.placement == (NodePlacement::Fixed { node_id, node_twin_id }),
        r.network matches NetworkTarget::Existing(e) && e.name@ == network_name@ && e.ip@ == vm_ip@,
        is_quick_vm(r.vm, ssh_key),
{
    VmLightDeployment {
        placement: NodePlacement::Fixed { node_id, node_twin_id },
        network: NetworkTarget::Existing(ExistingNetworkSpec { name: String::from_str(network_name), ip: String::from_str(vm_ip) }),
        vm: quick_vm(ssh_key),
    }
}

} // verus!
