//! Workload and deployment types of the zos node API.

use vstd::prelude::*;

use crate::error::{is_validation, GridError};
use crate::json::{clone_json, JsonModel, JsonValue};
use crate::text::str_eq;

verus! {

pub const MYCELIUM_KEY_LEN: usize = 32;
pub const MYCELIUM_IP_SEED_LEN: usize = 6;

pub const KILOBYTE: u64 = 1024;
pub const MEGABYTE: u64 = 1048576;
pub const GIGABYTE: u64 = 1073741824;
pub const TERABYTE: u64 = 1099511627776;

pub const ZMOUNT_TYPE: &'static str = "zmount";
pub const NETWORK_TYPE: &'static str = "network";
pub const NETWORK_LIGHT_TYPE: &'static str = "network-light";
pub const ZDB_TYPE: &'static str = "zdb";
pub const ZMACHINE_TYPE: &'static str = "zmachine";
pub const ZMACHINE_LIGHT_TYPE: &'static str = "zmachine-light";
pub const VOLUME_TYPE: &'static str = "volume";
pub const PUBLIC_IP_TYPE: &'static str = "ip";
pub const GATEWAY_NAME_PROXY_TYPE: &'static str = "gateway-name-proxy";
pub const GATEWAY_FQDN_PROXY_TYPE: &'static str = "gateway-fqdn-proxy";
pub const QUANTUM_SAFE_FS_TYPE: &'static str = "qsfs";
pub const ZLOGS_TYPE: &'static str = "zlogs";

pub const STATE_INIT: &'static str = "init";
pub const STATE_UNCHANGED: &'static str = "unchanged";
pub const STATE_ERROR: &'static str = "error";
pub const STATE_OK: &'static str = "ok";
pub const STATE_DELETED: &'static str = "deleted";
pub const STATE_PAUSED: &'static str = "paused";

// ---------------------------------------------------------------------------
// IP addresses and networks, as parsed by `ipnet` and std
// ---------------------------------------------------------------------------

/// What `ipnet` reads from `txt` as an IP network: the address octets as
/// written (4 for IPv4, 16 for IPv6) and the prefix length.
pub uninterp spec fn cidr_parts(txt: Seq<char>) -> Option<(Seq<u8>, u8)>;

/// `txt.parse::<ipnet::IpNet>()`, taken apart into the address octets and
/// the prefix length. The claim: the parts are those `ipnet` read, an IPv4
/// network has 4 octets and a prefix of at most 32, an IPv6 one 16 octets
/// and at most 128 (`Ipv4Net::new`/`Ipv6Net::new` refuse longer prefixes).
#[verifier::external_body]
pub(crate) fn parse_ip_net(txt: &str) -> (r: Option<(Vec<u8>, u8)>)
    ensures
        match cidr_parts(txt@) {
            Some(p) => r matches Some(x) && x.0@ == p.0 && x.1 == p.1,
            None => r is None,
        },
        r matches Some(x) ==> (x.0@.len() == 4 && x.1 <= 32) || (x.0@.len() == 16 && x.1 <= 128),
{
    match txt.parse::<ipnet::IpNet>() {
        Ok(ipnet::IpNet::V4(n)) => Some((n.addr().octets().to_vec(), n.prefix_len())),
        Ok(ipnet::IpNet::V6(n)) => Some((n.addr().octets().to_vec(), n.prefix_len())),
        Err(_) => None,
    }
}

/// The text of `ipnet`'s parse error.
pub open spec fn cidr_error_message() -> Seq<char> {
    "invalid cidr: invalid IP address syntax"@
}

/// An IP network in CIDR notation, kept as text.
#[derive(Debug, PartialEq, Eq)]
pub struct IPNet {
    pub cidr: String,
}

impl Clone for IPNet {
    fn clone(&self) -> (r: Self)
        ensures
            r == *self,
    {
        IPNet { cidr: self.cidr.clone() }
    }
}

impl IPNet {
    /// Checks `txt` as a CIDR network and keeps it as written.
    pub fn parse(txt: &str) -> (r: Result<IPNet, GridError>)
        ensures
            cidr_parts(txt@) is Some ==> (r matches Ok(n) && n.cidr@ == txt@),
            cidr_parts(txt@) is None ==> (r matches Err(e) && is_validation(e, cidr_error_message())),
    {
        match parse_ip_net(txt) {
            Some(_) => Ok(IPNet { cidr: String::from_str(txt) }),
            None => {
                proof {
                    reveal_strlit("invalid cidr: invalid IP address syntax");
                }
                Err(GridError::validation("invalid cidr: invalid IP address syntax"))
            },
        }
    }

    /// Wraps `addr` without checking it.
    pub fn new(addr: &str) -> (r: IPNet)
        ensures
            r.cidr@ == addr@,
    {
        IPNet { cidr: String::from_str(addr) }
    }

    /// The network as written.
    pub fn string(&self) -> (r: &str)
        ensures
            r@ == self.cidr@,
    {
        self.cidr.as_str()
    }
}

// ---------------------------------------------------------------------------
// Workloads and deployments
// ---------------------------------------------------------------------------

/// The mathematical content of a [`ResultData`].
pub struct ResultDataView {
    pub created: i64,
    pub state: Seq<char>,
    pub error: Seq<char>,
    pub data: JsonModel,
}

/// What a node reports about a workload.
#[derive(Debug)]
pub struct ResultData {
    pub created: i64,
    pub state: String,
    pub error: String,
    pub data: JsonValue,
}

impl View for ResultData {
    type V = ResultDataView;

    open spec fn view(&self) -> ResultDataView {
        ResultDataView { created: self.created, state: self.state@, error: self.error@, data: self.data@ }
    }
}

impl Clone for ResultData {
    fn clone(&self) -> (r: Self)
        ensures
            r@ == self@,
    {
        ResultData {
            created: self.created,
            state: self.state.clone(),
            error: self.error.clone(),
            data: clone_json(&self.data),
        }
    }
}

impl Default for ResultData {
    fn default() -> (r: Self)
        ensures
            r@ == (ResultDataView { created: 0, state: STATE_INIT@, error: Seq::empty(), data: JsonModel::Null }),
    {
        ResultData {
            created: 0,
            state: String::from_str(STATE_INIT),
            error: String::new(),
            data: JsonValue::Null,
        }
    }
}

/// The states in which a workload counts as running.
pub open spec fn okay_state(state: Seq<char>) -> bool {
    state == STATE_OK@ || state == STATE_PAUSED@
}

impl ResultData {
    /// Whether the workload is `ok` or `paused`.
    pub fn is_okay(&self) -> (r: bool)
        ensures
            r == okay_state(self.state@),
    {
        str_eq(self.state.as_str(), STATE_OK) || str_eq(self.state.as_str(), STATE_PAUSED)
    }

    /// Whether the state is one of `states`.
    pub fn is_any(&self, states: &[&str]) -> (r: bool)
        ensures
            r == exists|i: int| 0 <= i < states@.len() && #[trigger] states@[i]@ == self.state@,
    {
        let mut i: usize = 0;
        while i < states.len()
            invariant
                i <= states@.len(),
                forall|j: int| 0 <= j < i ==> #[trigger] states@[j]@ != self.state@,
            decreases states.len() - i,
        {
            if str_eq(states[i], self.state.as_str()) {
                return true;
            }
            i = i + 1;
        }
        false
    }
}

/// The mathematical content of a [`Workload`].
pub struct WorkloadView {
    pub version: u32,
    pub name: Seq<char>,
    pub workload_type: Seq<char>,
    pub data: JsonModel,
    pub metadata: Seq<char>,
    pub description: Seq<char>,
    pub result: ResultDataView,
}

/// One workload of a deployment.
#[derive(Debug)]
pub struct Workload {
    pub version: u32,
    pub name: String,
    pub workload_type: String,
    pub data: JsonValue,
    pub metadata: String,
    pub description: String,
    pub result: ResultData,
}

impl View for Workload {
    type V = WorkloadView;

    open spec fn view(&self) -> WorkloadView {
        WorkloadView {
            version: self.version,
            name: self.name@,
            workload_type: self.workload_type@,
            data: self.data@,
            metadata: self.metadata@,
            description: self.description@,
            result: self.result@,
        }
    }
}

impl Clone for Workload {
    fn clone(&self) -> (r: Self)
        ensures
            r@ == self@,
    {
        Workload {
            version: self.version,
            name: self.name.clone(),
            workload_type: self.workload_type.clone(),
            data: clone_json(&self.data),
            metadata: self.metadata.clone(),
            description: self.description.clone(),
            result: self.result.clone(),
        }
    }
}

/// The view of an empty workload.
pub open spec fn empty_workload() -> WorkloadView {
    WorkloadView {
        version: 0,
        name: Seq::empty(),
        workload_type: Seq::empty(),
        data: JsonModel::Null,
        metadata: Seq::empty(),
        description: Seq::empty(),
        result: ResultDataView { created: 0, state: STATE_INIT@, error: Seq::empty(), data: JsonModel::Null },
    }
}

/// The position of the first workload named `name`.
pub open spec fn first_named(ws: Seq<WorkloadView>, name: Seq<char>) -> Option<int> {
    if exists|i: int| 0 <= i < ws.len() && #[trigger] ws[i].name == name {
        Some(choose|i: int| 0 <= i < ws.len() && #[trigger] ws[i].name == name && forall|j: int| 0 <= j < i ==> #[trigger] ws[j].name != name)
    } else {
        None
    }
}

/// The first workload named `name` is well defined.
pub proof fn lemma_first_named(ws: Seq<WorkloadView>, name: Seq<char>)
    ensures
        first_named(ws, name) matches Some(i) ==> 0 <= i < ws.len() && ws[i].name == name && forall|j: int| 0 <= j < i ==> #[trigger] ws[j].name != name,
        first_named(ws, name) is None ==> forall|i: int| 0 <= i < ws.len() ==> #[trigger] ws[i].name != name,
{
    if exists|i: int| 0 <= i < ws.len() && #[trigger] ws[i].name == name {
        let k = choose|i: int| 0 <= i < ws.len() && #[trigger] ws[i].name == name;
        lemma_least_named(ws, name, k);
    }
}

proof fn lemma_least_named(ws: Seq<WorkloadView>, name: Seq<char>, k: int)
    requires
        0 <= k < ws.len(),
        ws[k].name == name,
    ensures
        exists|i: int| 0 <= i < ws.len() && #[trigger] ws[i].name == name && forall|j: int| 0 <= j < i ==> #[trigger] ws[j].name != name,
    decreases k,
{
    if exists|j: int| 0 <= j < k && #[trigger] ws[j].name == name {
        let j = choose|j: int| 0 <= j < k && #[trigger] ws[j].name == name;
        lemma_least_named(ws, name, j);
    } else {
        assert(forall|j: int| 0 <= j < k ==> #[trigger] ws[j].name != name);
    }
}

/// The position of the first workload named `name`.
pub fn position_named(ws: &Vec<Workload>, name: &str) -> (r: Option<usize>)
    ensures
        match r {
            Some(i) => first_named(workload_views(ws@), name@) == Some(i as int) && i < ws@.len(),
            None => first_named(workload_views(ws@), name@) is None,
        },
{
    let ghost views = workload_views(ws@);
    proof {
        lemma_first_named(views, name@);
    }
    let mut i: usize = 0;
    while i < ws.len()
        invariant
            views == workload_views(ws@),
            views.len() == ws@.len(),
            first_named(views, name@) matches Some(k) ==> 0 <= k < views.len() && views[k].name == name@ && forall|j: int| 0 <= j < k ==> #[trigger] views[j].name != name@,
            first_named(views, name@) is None ==> forall|j: int| 0 <= j < views.len() ==> #[trigger] views[j].name != name@,
            i <= ws@.len(),
            forall|j: int| 0 <= j < i ==> #[trigger] views[j].name != name@,
        decreases ws.len() - i,
    {
        assert(views[i as int] == ws@[i as int]@);
        if str_eq(ws[i].name.as_str(), name) {
            proof {
                assert(views[i as int].name == name@);
                let k = first_named(views, name@).unwrap();
                if k < i {
                    assert(views[k].name != name@);
                }
                if k > i {
                    assert(views[i as int].name != name@);
                }
            }
            return Some(i);
        }
        i = i + 1;
    }
    None
}

impl Default for Workload {
    fn default() -> (r: Self)
        ensures
            r@ == (WorkloadView {
                version: 0,
                name: Seq::empty(),
                workload_type: Seq::empty(),
                data: JsonModel::Null,
                metadata: Seq::empty(),
                description: Seq::empty(),
                result: ResultDataView { created: 0, state: STATE_INIT@, error: Seq::empty(), data: JsonModel::Null },
            }),
    {
        Workload {
            version: 0,
            name: String::new(),
            workload_type: String::new(),
            data: JsonValue::Null,
            metadata: String::new(),
            description: String::new(),
            result: ResultData::default(),
        }
    }
}

/// The views of a sequence of workloads.
pub open spec fn workload_views(ws: Seq<Workload>) -> Seq<WorkloadView> {
    ws.map_values(|w: Workload| w@)
}

/// The workloads of type `kind`, in order.
pub open spec fn of_type(ws: Seq<WorkloadView>, kind: Seq<char>) -> Seq<WorkloadView>
    decreases ws.len(),
{
    if ws.len() == 0 {
        Seq::empty()
    } else if ws.last().workload_type == kind {
        of_type(ws.drop_last(), kind).push(ws.last())
    } else {
        of_type(ws.drop_last(), kind)
    }
}

/// A signer that a deployment asks for.
#[derive(Debug, Clone, Copy, PartialEq, Eq, Structural)]
pub struct SignatureRequest {
    pub twin_id: u32,
    pub required: bool,
    pub weight: u32,
}

/// The signatures a deployment needs and those it carries.
#[derive(Debug)]
pub struct SignatureRequirement {
    pub requests: Vec<SignatureRequest>,
    pub weight_required: u32,
    pub signatures: Vec<String>,
    pub signature_style: String,
}

/// The mathematical content of a [`SignatureRequirement`].
pub struct SignatureRequirementView {
    pub requests: Seq<SignatureRequest>,
    pub weight_required: u32,
    pub signatures: Seq<Seq<char>>,
    pub signature_style: Seq<char>,
}

impl View for SignatureRequirement {
    type V = SignatureRequirementView;

    open spec fn view(&self) -> SignatureRequirementView {
        SignatureRequirementView {
            requests: self.requests@,
            weight_required: self.weight_required,
            signatures: self.signatures@.map_values(|s: String| s@),
            signature_style: self.signature_style@,
        }
    }
}

impl Clone for SignatureRequirement {
    fn clone(&self) -> (r: Self)
        ensures
            r@ == self@,
    {
        let mut signatures: Vec<String> = Vec::new();
        let mut i: usize = 0;
        while i < self.signatures.len()
            invariant
                i <= self.signatures@.len(),
                signatures@.map_values(|s: String| s@) == self.signatures@.take(i as int).map_values(|s: String| s@),
            decreases self.signatures.len() - i,
        {
            let ghost before = signatures@;
            signatures.push(self.signatures[i].clone());
            assert(signatures@.map_values(|s: String| s@) =~= before.map_values(|s: String| s@).push(self.signatures@[i as int]@));
            assert(self.signatures@.take(i + 1).map_values(|s: String| s@) =~= self.signatures@.take(i as int).map_values(|s: String| s@).push(self.signatures@[i as int]@));
            i = i + 1;
        }
        assert(self.signatures@.take(self.signatures@.len() as int) =~= self.signatures@);
        SignatureRequirement {
            requests: vstd::slice::slice_to_vec(self.requests.as_slice()),
            weight_required: self.weight_required,
            signatures,
            signature_style: self.signature_style.clone(),
        }
    }
}

impl Default for SignatureRequirement {
    fn default() -> (r: Self)
        ensures
            r@ == (SignatureRequirementView {
                requests: Seq::empty(),
                weight_required: 0,
                signatures: Seq::empty(),
                signature_style: Seq::empty(),
            }),
    {
        let r = SignatureRequirement {
            requests: Vec::new(),
            weight_required: 0,
            signatures: Vec::new(),
            signature_style: String::new(),
        };
        assert(r@.signatures =~= Seq::<Seq<char>>::empty());
        r
    }
}

/// The mathematical content of a [`Deployment`].
pub struct DeploymentView {
    pub version: u32,
    pub twin_id: u32,
    pub contract_id: u64,
    pub metadata: Seq<char>,
    pub description: Seq<char>,
    pub expiration: i64,
    pub signature_requirement: SignatureRequirementView,
    pub workloads: Seq<WorkloadView>,
}

/// A deployment as a node holds it.
#[derive(Debug)]
pub struct Deployment {
    pub version: u32,
    pub twin_id: u32,
    pub contract_id: u64,
    pub metadata: String,
    pub description: String,
    pub expiration: i64,
    pub signature_requirement: SignatureRequirement,
    pub workloads: Vec<Workload>,
}

impl View for Deployment {
    type V = DeploymentView;

    open spec fn view(&self) -> DeploymentView {
        DeploymentView {
            version: self.version,
            twin_id: self.twin_id,
            contract_id: self.contract_id,
            metadata: self.metadata@,
            description: self.description@,
            expiration: self.expiration,
            signature_requirement: self.signature_requirement@,
            workloads: workload_views(self.workloads@),
        }
    }
}

/// The view of an empty signature requirement.
pub open spec fn no_signatures() -> SignatureRequirementView {
    SignatureRequirementView {
        requests: Seq::empty(),
        weight_required: 0,
        signatures: Seq::empty(),
        signature_style: Seq::empty(),
    }
}

/// Copies of workloads with the same views.
pub fn clone_workloads(ws: &Vec<Workload>) -> (r: Vec<Workload>)
    ensures
        workload_views(r@) == workload_views(ws@),
{
    let mut out: Vec<Workload> = Vec::new();
    let mut i: usize = 0;
    while i < ws.len()
        invariant
            i <= ws@.len(),
            workload_views(out@) == workload_views(ws@.take(i as int)),
        decreases ws.len() - i,
    {
        let ghost before = out@;
        out.push(ws[i].clone());
        assert(workload_views(out@) =~= workload_views(before).push(ws@[i as int]@));
        assert(workload_views(ws@.take(i + 1)) =~= workload_views(ws@.take(i as int)).push(ws@[i as int]@));
        i = i + 1;
    }
    assert(ws@.take(ws@.len() as int) =~= ws@);
    out
}

impl Clone for Deployment {
    fn clone(&self) -> (r: Self)
        ensures
            r@ == self@,
    {
        Deployment {
            version: self.version,
            twin_id: self.twin_id,
            contract_id: self.contract_id,
            metadata: self.metadata.clone(),
            description: self.description.clone(),
            expiration: self.expiration,
            signature_requirement: self.signature_requirement.clone(),
            workloads: clone_workloads(&self.workloads),
        }
    }
}

impl Default for Deployment {
    fn default() -> (r: Self)
        ensures
            r@ == (DeploymentView {
                version: 0,
                twin_id: 0,
                contract_id: 0,
                metadata: Seq::empty(),
                description: Seq::empty(),
                expiration: 0,
                signature_requirement: no_signatures(),
                workloads: Seq::empty(),
            }),
    {
        let r = Deployment {
            version: 0,
            twin_id: 0,
            contract_id: 0,
            metadata: String::new(),
            description: String::new(),
            expiration: 0,
            signature_requirement: SignatureRequirement::default(),
            workloads: Vec::new(),
        };
        assert(r@.workloads =~= Seq::<WorkloadView>::empty());
        r
    }
}

impl Deployment {
    /// A copy of the first workload named `name`.
    pub fn workload_with_id(&self, name: &str) -> (r: Option<Workload>)
        ensures
            match first_named(workload_views(self.workloads@), name@) {
                Some(i) => r matches Some(w) && w@ == self.workloads@[i]@,
                None => r is None,
            },
    {
        let ghost views = workload_views(self.workloads@);
        proof {
            lemma_first_named(views, name@);
        }
        let mut i: usize = 0;
        while i < self.workloads.len()
            invariant
                views == workload_views(self.workloads@),
                first_named(views, name@) matches Some(k) ==> 0 <= k < views.len() && views[k].name == name@ && forall|j: int| 0 <= j < k ==> #[trigger] views[j].name != name@,
                first_named(views, name@) is None ==> forall|j: int| 0 <= j < views.len() ==> #[trigger] views[j].name != name@,
                i <= self.workloads@.len(),
                forall|j: int| 0 <= j < i ==> #[trigger] views[j].name != name@,
            decreases self.workloads.len() - i,
        {
            if str_eq(self.workloads[i].name.as_str(), name) {
                let w = self.workloads[i].clone();
                proof {
                    assert(views[i as int].name == name@);
                    let k = first_named(views, name@).unwrap();
                    if k < i {
                        assert(views[k].name != name@);
                    }
                    if k > i {
                        assert(views[i as int].name != name@);
                    }
                }
                return Some(w);
            }
            i = i + 1;
        }
        None
    }

    /// Copies of the workloads of type `kind`, in order.
    pub fn by_type(&self, kind: &str) -> (r: Vec<Workload>)
        ensures
            workload_views(r@) == of_type(workload_views(self.workloads@), kind@),
    {
        let mut out: Vec<Workload> = Vec::new();
        let mut i: usize = 0;
        while i < self.workloads.len()
            invariant
                i <= self.workloads@.len(),
                workload_views(out@) == of_type(workload_views(self.workloads@.take(i as int)), kind@),
            decreases self.workloads.len() - i,
        {
            let ghost before = out@;
            proof {
                let t = self.workloads@.take(i + 1);
                assert(workload_views(t).drop_last() =~= workload_views(self.workloads@.take(i as int)));
                assert(workload_views(t).last() == self.workloads@[i as int]@);
            }
            if str_eq(self.workloads[i].workload_type.as_str(), kind) {
                out.push(self.workloads[i].clone());
                proof {
                    assert(workload_views(out@) =~= workload_views(before).push(self.workloads@[i as int]@));
                }
            }
            i = i + 1;
        }
        assert(self.workloads@.take(self.workloads@.len() as int) =~= self.workloads@);
        out
    }
}

/// Collects workloads for a deployment of one twin.
#[derive(Debug)]
pub struct DeploymentBuilder {
    pub version: u32,
    pub twin_id: u32,
    pub workloads: Vec<Workload>,
}

impl DeploymentBuilder {
    /// An empty builder for `twin_id`.
    pub fn new(twin_id: u32) -> (r: DeploymentBuilder)
        ensures
            r.version == 0,
            r.twin_id == twin_id,
            r.workloads@.len() == 0,
    {
        DeploymentBuilder { version: 0, twin_id, workloads: Vec::new() }
    }

    /// Appends a workload.
    pub fn add_workload(self, workload: Workload) -> (r: DeploymentBuilder)
        ensures
            r.version == self.version,
            r.twin_id == self.twin_id,
            r.workloads@ == self.workloads@.push(workload),
    {
        let mut b = self;
        b.workloads.push(workload);
        b
    }

    /// The deployment under `contract_id`, with empty metadata and no
    /// signature requirement.
    pub fn build(self, contract_id: u64) -> (r: Deployment)
        ensures
            r@ == (DeploymentView {
                version: self.version,
                twin_id: self.twin_id,
                contract_id,
                metadata: Seq::empty(),
                description: Seq::empty(),
                expiration: 0,
                signature_requirement: no_signatures(),
                workloads: workload_views(self.workloads@),
            }),
    {
        Deployment {
            version: self.version,
            twin_id: self.twin_id,
            contract_id,
            workloads: self.workloads,
            metadata: String::new(),
            description: String::new(),
            expiration: 0,
            signature_requirement: SignatureRequirement::default(),
        }
    }
}

} // verus!
