//! Deployment requests of the live client and their builders.

use vstd::prelude::*;

use crate::env_vars::EnvVars;
use crate::zos::{GIGABYTE, MEGABYTE};

verus! {

/// The flist a VM boots when none is given.
pub open spec fn default_flist() -> Seq<char> {
    "https://hub.grid.tf/tf-official-apps/base:latest.flist"@
}

/// The entrypoint a VM runs when none is given.
pub open spec fn default_entrypoint() -> Seq<char> {
    "/sbin/zinit init"@
}

/// What a finished deployment reports back.
#[derive(Debug, Clone)]
pub struct DeploymentOutcome {
    pub node_id: u32,
    pub node_twin_id: u32,
    pub network_name: String,
    pub network_contract_id: u64,
    pub vm_name: String,
    pub vm_contract_id: u64,
    pub vm_ip: String,
    pub mycelium_ip: String,
    pub public_ipv4: String,
    pub public_ipv6: String,
    pub console_url: String,
}

/// Minimum free capacity a node must offer to be picked automatically.
#[derive(Debug, Clone, Copy, PartialEq, Eq, Structural)]
pub struct NodeRequirements {
    pub min_cru: u64,
    pub min_memory_bytes: u64,
    pub min_rootfs_bytes: u64,
}

/// The requirements used when none are given: 1 core, 1 GiB of memory and
/// 10 GiB of root filesystem.
pub open spec fn default_requirements() -> NodeRequirements {
    NodeRequirements { min_cru: 1, min_memory_bytes: 1073741824u64, min_rootfs_bytes: 10737418240u64 }
}

impl Default for NodeRequirements {
    fn default() -> (r: NodeRequirements)
        ensures
            r == default_requirements(),
    {
        NodeRequirements { min_cru: 1, min_memory_bytes: 1024 * MEGABYTE, min_rootfs_bytes: 10 * GIGABYTE }
    }
}

impl NodeRequirements {
    /// A builder starting from the default requirements.
    pub fn builder() -> (r: NodeRequirementsBuilder)
        ensures
            r.requirements == default_requirements(),
    {
        NodeRequirementsBuilder { requirements: NodeRequirements::default() }
    }
}

/// Where a deployment goes: a node picked by requirements, or a fixed node.
#[derive(Debug, Clone, Copy, PartialEq, Eq, Structural)]
pub enum NodePlacement {
    Auto(NodeRequirements),
    Fixed { node_id: u32, node_twin_id: u32 },
}

impl Default for NodePlacement {
    fn default() -> (r: NodePlacement)
        ensures
            r == NodePlacement::Auto(default_requirements()),
    {
        NodePlacement::Auto(NodeRequirements::default())
    }
}

impl NodePlacement {
    /// Automatic placement with the default requirements.
    pub fn auto() -> (r: NodePlacement)
        ensures
            r == NodePlacement::Auto(default_requirements()),
    {
        NodePlacement::Auto(NodeRequirements::default())
    }

    /// Automatic placement with the given requirements.
    pub fn auto_with(requirements: NodeRequirements) -> (r: NodePlacement)
        ensures
            r == NodePlacement::Auto(requirements),
    {
        NodePlacement::Auto(requirements)
    }

    /// Placement on a fixed node.
    pub fn fixed(node_id: u32, node_twin_id: u32) -> (r: NodePlacement)
        ensures
            r == (NodePlacement::Fixed { node_id, node_twin_id }),
    {
        NodePlacement::Fixed { node_id, node_twin_id }
    }
}

/// A `network-light` to create; unset fields are chosen at deployment time.
#[derive(Debug, Clone, PartialEq, Eq)]
pub struct NetworkLightSpec {
    pub name: Option<String>,
    pub subnet: Option<String>,
    pub mycelium_key: Option<Vec<u8>>,
}

impl Default for NetworkLightSpec {
    fn default() -> (r: NetworkLightSpec)
        ensures
            r.name is None,
            r.subnet is None,
            r.mycelium_key is None,
    {
        NetworkLightSpec { name: None, subnet: None, mycelium_key: None }
    }
}

impl NetworkLightSpec {
    /// A builder starting with every field unset.
    pub fn builder() -> (r: NetworkLightSpecBuilder)
        ensures
            r.spec.name is None,
            r.spec.subnet is None,
            r.spec.mycelium_key is None,
    {
        NetworkLightSpecBuilder { spec: NetworkLightSpec::default() }
    }
}

/// An existing network to join, and the address the VM takes in it.
#[derive(Debug, Clone, PartialEq, Eq)]
pub struct ExistingNetworkSpec {
    pub name: String,
    pub ip: String,
}

impl ExistingNetworkSpec {
    /// An existing network `name` joined at address `ip`.
    pub fn new(name: &str, ip: &str) -> (r: ExistingNetworkSpec)
        ensures
            r.name@ == name@,
            r.ip@ == ip@,
    {
        ExistingNetworkSpec { name: String::from_str(name), ip: String::from_str(ip) }
    }
}

/// The network of a `vm-light` deployment.
#[derive(Debug, Clone, PartialEq, Eq)]
pub enum NetworkTarget {
    Create(NetworkLightSpec),
    Existing(ExistingNetworkSpec),
}

/// A named disk mounted into a `vm-light`.
#[derive(Debug, Clone, PartialEq, Eq)]
pub struct VmLightMount {
    pub name: String,
    pub mountpoint: String,
}

/// A `vm-light` machine.
#[derive(Debug, Clone, PartialEq, Eq)]
pub struct VmLightSpec {
    pub name: Option<String>,
    pub flist: String,
    pub cpu: u8,
    pub memory_bytes: u64,
    pub rootfs_size_bytes: u64,
    pub entrypoint: String,
    pub env: EnvVars,
    pub mounts: Vec<VmLightMount>,
    pub volumes: Vec<VolumeMountSpec>,
    pub corex: bool,
    pub gpu: Vec<String>,
    pub mycelium_seed: Option<Vec<u8>>,
}

/// The defaults of a machine spec: no name, the base flist, 1 core, 1 GiB of
/// memory, 10 GiB of root filesystem, zinit as entrypoint, nothing else.
pub open spec fn is_default_vm_light(s: VmLightSpec) -> bool {
    &&& s.name is None
    &&& s.flist@ == default_flist()
    &&& s.cpu == 1
    &&& s.memory_bytes == 1024 * MEGABYTE
    &&& s.rootfs_size_bytes == 10 * GIGABYTE
    &&& s.entrypoint@ == default_entrypoint()
    &&& s.env@ == Map::<Seq<char>, Seq<char>>::empty()
    &&& s.mounts@.len() == 0
    &&& s.volumes@.len() == 0
    &&& !s.corex
    &&& s.gpu@.len() == 0
    &&& s.mycelium_seed is None
}

impl Default for VmLightSpec {
    fn default() -> (r: VmLightSpec)
        ensures
            is_default_vm_light(r),
    {
        VmLightSpec {
            name: None,
            flist: String::from_str("https://hub.grid.tf/tf-official-apps/base:latest.flist"),
            cpu: 1,
            memory_bytes: 1024 * MEGABYTE,
            rootfs_size_bytes: 10 * GIGABYTE,
            entrypoint: String::from_str("/sbin/zinit init"),
            env: EnvVars::new(),
            mounts: Vec::new(),
            volumes: Vec::new(),
            corex: false,
            gpu: Vec::new(),
            mycelium_seed: None,
        }
    }
}

impl VmLightSpec {
    /// A builder starting from the defaults.
    pub fn builder() -> (r: VmLightSpecBuilder)
        ensures
            is_default_vm_light(r.spec),
    {
        VmLightSpecBuilder { spec: VmLightSpec::default() }
    }
}

/// A request to deploy a `vm-light` machine.
#[derive(Debug, Clone, PartialEq, Eq)]
pub struct VmLightDeployment {
    pub placement: NodePlacement,
    pub network: NetworkTarget,
    pub vm: VmLightSpec,
}

/// A full network to create; unset fields are chosen at deployment time.
#[derive(Debug, Clone, PartialEq, Eq)]
pub struct FullNetworkSpec {
    pub name: Option<String>,
    pub ip_range: Option<String>,
    pub subnet: Option<String>,
    pub mycelium_key: Option<Vec<u8>>,
    pub wireguard_private_key: Option<String>,
    pub wireguard_listen_port: Option<u16>,
}

/// Every field of a full network spec is unset.
pub open spec fn is_empty_full_network(s: FullNetworkSpec) -> bool {
    &&& s.name is None
    &&& s.ip_range is None
    &&& s.subnet is None
    &&& s.mycelium_key is None
    &&& s.wireguard_private_key is None
    &&& s.wireguard_listen_port is None
}

impl Default for FullNetworkSpec {
    fn default() -> (r: FullNetworkSpec)
        ensures
            is_empty_full_network(r),
    {
        FullNetworkSpec {
            name: None,
            ip_range: None,
            subnet: None,
            mycelium_key: None,
            wireguard_private_key: None,
            wireguard_listen_port: None,
        }
    }
}

impl FullNetworkSpec {
    /// A builder starting with every field unset.
    pub fn builder() -> (r: FullNetworkSpecBuilder)
        ensures
            is_empty_full_network(r.spec),
    {
        FullNetworkSpecBuilder { spec: FullNetworkSpec::default() }
    }
}

/// The network of a full VM deployment.
#[derive(Debug, Clone, PartialEq, Eq)]
pub enum FullNetworkTarget {
    Create(FullNetworkSpec),
    Existing(ExistingNetworkSpec),
}

/// A volume created with the machine and mounted into it.
#[derive(Debug, Clone, PartialEq, Eq)]
pub struct VolumeMountSpec {
    pub name: String,
    pub size_bytes: u64,
    pub mountpoint: String,
    pub description: String,
}

impl VolumeMountSpec {
    /// A volume `name` of `size_bytes` mounted at `mountpoint`, with no
    /// description.
    pub fn new(name: &str, size_bytes: u64, mountpoint: &str) -> (r: VolumeMountSpec)
        ensures
            r.name@ == name@,
            r.size_bytes == size_bytes,
            r.mountpoint@ == mountpoint@,
            r.description@ == Seq::<char>::empty(),
    {
        VolumeMountSpec {
            name: String::from_str(name),
            size_bytes,
            mountpoint: String::from_str(mountpoint),
            description: String::new(),
        }
    }

    /// The same volume with the given description.
    pub fn description(self, description: &str) -> (r: VolumeMountSpec)
        ensures
            r.description@ == description@,
            r == (VolumeMountSpec { description: r.description, ..self }),
    {
        VolumeMountSpec { description: String::from_str(description), ..self }
    }
}

/// A full (`zmachine`) VM.
#[derive(Debug, Clone, PartialEq, Eq)]
pub struct VmSpec {
    pub name: Option<String>,
    pub flist: String,
    pub cpu: u8,
    pub memory_bytes: u64,
    pub rootfs_size_bytes: u64,
    pub entrypoint: String,
    pub env: EnvVars,
    pub volumes: Vec<VolumeMountSpec>,
    pub planetary: bool,
    pub public_ipv4: bool,
    pub public_ipv6: bool,
    pub corex: bool,
    pub gpu: Vec<String>,
    pub mycelium_seed: Option<Vec<u8>>,
}

/// The defaults of a full VM spec: as for `vm-light`, with every public
/// networking flag off.
pub open spec fn is_default_vm(s: VmSpec) -> bool {
    &&& s.name is None
    &&& s.flist@ == default_flist()
    &&& s.cpu == 1
    &&& s.memory_bytes == 1024 * MEGABYTE
    &&& s.rootfs_size_bytes == 10 * GIGABYTE
    &&& s.entrypoint@ == default_entrypoint()
    &&& s.env@ == Map::<Seq<char>, Seq<char>>::empty()
    &&& s.volumes@.len() == 0
    &&& !s.planetary
    &&& !s.public_ipv4
    &&& !s.public_ipv6
    &&& !s.corex
    &&& s.gpu@.len() == 0
    &&& s.mycelium_seed is None
}

impl Default for VmSpec {
    fn default() -> (r: VmSpec)
        ensures
            is_default_vm(r),
    {
        VmSpec {
            name: None,
            flist: String::from_str("https://hub.grid.tf/tf-official-apps/base:latest.flist"),
            cpu: 1,
            memory_bytes: 1024 * MEGABYTE,
            rootfs_size_bytes: 10 * GIGABYTE,
            entrypoint: String::from_str("/sbin/zinit init"),
            env: EnvVars::new(),
            volumes: Vec::new(),
            planetary: false,
            public_ipv4: false,
            public_ipv6: false,
            corex: false,
            gpu: Vec::new(),
            mycelium_seed: None,
        }
    }
}

impl VmSpec {
    /// A builder starting from the defaults.
    pub fn builder() -> (r: VmSpecBuilder)
        ensures
            is_default_vm(r.spec),
    {
        VmSpecBuilder { spec: VmSpec::default() }
    }
}

/// A request to deploy a full VM.
#[derive(Debug, Clone, PartialEq, Eq)]
pub struct VmDeployment {
    pub placement: NodePlacement,
    pub network: FullNetworkTarget,
    pub vm: VmSpec,
}

/// Builds a [`VmLightDeployment`].
#[derive(Debug, Clone)]
pub struct VmLightDeploymentBuilder {
    pub request: VmLightDeployment,
}

/// Builds a [`VmDeployment`].
#[derive(Debug, Clone)]
pub struct VmDeploymentBuilder {
    pub request: VmDeployment,
}

/// Builds [`NodeRequirements`].
#[derive(Debug, Clone)]
pub struct NodeRequirementsBuilder {
    pub requirements: NodeRequirements,
}

/// Builds a [`NetworkLightSpec`].
#[derive(Debug, Clone)]
pub struct NetworkLightSpecBuilder {
    pub spec: NetworkLightSpec,
}

/// Builds a [`FullNetworkSpec`].
#[derive(Debug, Clone)]
pub struct FullNetworkSpecBuilder {
    pub spec: FullNetworkSpec,
}

/// Builds a [`VmLightSpec`].
#[derive(Debug, Clone)]
pub struct VmLightSpecBuilder {
    pub spec: VmLightSpec,
}

/// Builds a [`VmSpec`].
#[derive(Debug, Clone)]
pub struct VmSpecBuilder {
    pub spec: VmSpec,
}

impl VmLightDeployment {
    /// A builder for automatic placement with the default requirements, a new
    /// `network-light` with every field unset, and the default machine.
    pub fn builder() -> (r: VmLightDeploymentBuilder)
        ensures
            r.request.placement == NodePlacement::Auto(default_requirements()),
            r.request.network matches NetworkTarget::Create(n) && n.name is None && n.subnet is None
                && n.mycelium_key is None,
            is_default_vm_light(r.request.vm),
    {
        VmLightDeploymentBuilder {
            request: VmLightDeployment {
                placement: NodePlacement::default(),
                network: NetworkTarget::Create(NetworkLightSpec::default()),
                vm: VmLightSpec::default(),
            },
        }
    }
}

impl VmLightDeploymentBuilder {
    /// Automatic placement with the default requirements.
    pub fn auto(self) -> (r: VmLightDeploymentBuilder)
        ensures
            r.request == (VmLightDeployment { placement: NodePlacement::Auto(default_requirements()), ..self.request }),
    {
        let mut request = self.request;
        request.placement = NodePlacement::auto();
        VmLightDeploymentBuilder { request }
    }

    /// Automatic placement with the given requirements.
    pub fn auto_with(self, requirements: NodeRequirements) -> (r: VmLightDeploymentBuilder)
        ensures
            r.request == (VmLightDeployment { placement: NodePlacement::Auto(requirements), ..self.request }),
    {
        let mut request = self.request;
        request.placement = NodePlacement::auto_with(requirements);
        VmLightDeploymentBuilder { request }
    }

    /// Placement on a fixed node.
    pub fn fixed_node(self, node_id: u32, node_twin_id: u32) -> (r: VmLightDeploymentBuilder)
        ensures
            r.request == (VmLightDeployment {
                placement: NodePlacement::Fixed { node_id, node_twin_id },
                ..self.request
            }),
    {
        let mut request = self.request;
        request.placement = NodePlacement::fixed(node_id, node_twin_id);
        VmLightDeploymentBuilder { request }
    }

    /// The given placement.
    pub fn placement(self, placement: NodePlacement) -> (r: VmLightDeploymentBuilder)
        ensures
            r.request == (VmLightDeployment { placement, ..self.request }),
    {
        let mut request = self.request;
        request.placement = placement;
        VmLightDeploymentBuilder { request }
    }

    /// Creates the given `network-light`.
    pub fn create_network(self, network: NetworkLightSpec) -> (r: VmLightDeploymentBuilder)
        ensures
            r.request == (VmLightDeployment { network: NetworkTarget::Create(network), ..self.request }),
    {
        let mut request = self.request;
        request.network = NetworkTarget::Create(network);
        VmLightDeploymentBuilder { request }
    }

    /// Joins the existing network `name` at address `ip`.
    pub fn existing_network(self, name: &str, ip: &str) -> (r: VmLightDeploymentBuilder)
        ensures
            r.request.network matches NetworkTarget::Existing(e) && e.name@ == name@ && e.ip@ == ip@,
            r.request == (VmLightDeployment { network: r.request.network, ..self.request }),
    {
        let mut request = self.request;
        request.network = NetworkTarget::Existing(ExistingNetworkSpec::new(name, ip));
        VmLightDeploymentBuilder { request }
    }

    /// The given network target.
    pub fn network(self, network: NetworkTarget) -> (r: VmLightDeploymentBuilder)
        ensures
            r.request == (VmLightDeployment { network, ..self.request }),
    {
        let mut request = self.request;
        request.network = network;
        VmLightDeploymentBuilder { request }
    }

    /// The given machine.
    pub fn vm(self, vm: VmLightSpec) -> (r: VmLightDeploymentBuilder)
        ensures
            r.request == (VmLightDeployment { vm, ..self.request }),
    {
        let mut request = self.request;
        request.vm = vm;
        VmLightDeploymentBuilder { request }
    }

    /// The request built so far.
    pub fn build(self) -> (r: VmLightDeployment)
        ensures
            r == self.request,
    {
        self.request
    }
}

impl VmDeployment {
    /// A builder for automatic placement with the default requirements, a new
    /// full network with every field unset, and the default machine.
    pub fn builder() -> (r: VmDeploymentBuilder)
        ensures
            r.request.placement == NodePlacement::Auto(default_requirements()),
            r.request.network matches FullNetworkTarget::Create(n) && is_empty_full_network(n),
            is_default_vm(r.request.vm),
    {
        VmDeploymentBuilder {
            request: VmDeployment {
                placement: NodePlacement::default(),
                network: FullNetworkTarget::Create(FullNetworkSpec::default()),
                vm: VmSpec::default(),
            },
        }
    }
}

impl VmDeploymentBuilder {
    /// Automatic placement with the default requirements.
    pub fn auto(self) -> (r: VmDeploymentBuilder)
        ensures
            r.request == (VmDeployment { placement: NodePlacement::Auto(default_requirements()), ..self.request }),
    {
        let mut request = self.request;
        request.placement = NodePlacement::auto();
        VmDeploymentBuilder { request }
    }

    /// Automatic placement with the given requirements.
    pub fn auto_with(self, requirements: NodeRequirements) -> (r: VmDeploymentBuilder)
        ensures
            r.request == (VmDeployment { placement: NodePlacement::Auto(requirements), ..self.request }),
    {
        let mut request = self.request;
        request.placement = NodePlacement::auto_with(requirements);
        VmDeploymentBuilder { request }
    }

    /// Placement on a fixed node.
    pub fn fixed_node(self, node_id: u32, node_twin_id: u32) -> (r: VmDeploymentBuilder)
        ensures
            r.request == (VmDeployment {
                placement: NodePlacement::Fixed { node_id, node_twin_id },
                ..self.request
            }),
    {
        let mut request = self.request;
        request.placement = NodePlacement::fixed(node_id, node_twin_id);
        VmDeploymentBuilder { request }
    }

    /// The given placement.
    pub fn placement(self, placement: NodePlacement) -> (r: VmDeploymentBuilder)
        ensures
            r.request == (VmDeployment { placement, ..self.request }),
    {
        let mut request = self.request;
        request.placement = placement;
        VmDeploymentBuilder { request }
    }

    /// Creates the given full network.
    pub fn create_network(self, network: FullNetworkSpec) -> (r: VmDeploymentBuilder)
        ensures
            r.request == (VmDeployment { network: FullNetworkTarget::Create(network), ..self.request }),
    {
        let mut request = self.request;
        request.network = FullNetworkTarget::Create(network);
        VmDeploymentBuilder { request }
    }

    /// Joins the existing network `name` at address `ip`.
    pub fn existing_network(self, name: &str, ip: &str) -> (r: VmDeploymentBuilder)
        ensures
            r.request.network matches FullNetworkTarget::Existing(e) && e.name@ == name@ && e.ip@ == ip@,
            r.request == (VmDeployment { network: r.request.network, ..self.request }),
    {
        let mut request = self.request;
        request.network = FullNetworkTarget::Existing(ExistingNetworkSpec::new(name, ip));
        VmDeploymentBuilder { request }
    }

    /// The given network target.
    pub fn network(self, network: FullNetworkTarget) -> (r: VmDeploymentBuilder)
        ensures
            r.request == (VmDeployment { network, ..self.request }),
    {
        let mut request = self.request;
        request.network = network;
        VmDeploymentBuilder { request }
    }

    /// The given machine.
    pub fn vm(self, vm: VmSpec) -> (r: VmDeploymentBuilder)
        ensures
            r.request == (VmDeployment { vm, ..self.request }),
    {
        let mut request = self.request;
        request.vm = vm;
        VmDeploymentBuilder { request }
    }

    /// The request built so far.
    pub fn build(self) -> (r: VmDeployment)
        ensures
            r == self.request,
    {
        self.request
    }
}

impl NodeRequirementsBuilder {
    /// Minimum free cores.
    pub fn min_cru(self, min_cru: u64) -> (r: NodeRequirementsBuilder)
        ensures
            r.requirements == (NodeRequirements { min_cru, ..self.requirements }),
    {
        let mut requirements = self.requirements;
        requirements.min_cru = min_cru;
        NodeRequirementsBuilder { requirements }
    }

    /// Minimum free memory in bytes.
    pub fn min_memory_bytes(self, min_memory_bytes: u64) -> (r: NodeRequirementsBuilder)
        ensures
            r.requirements == (NodeRequirements { min_memory_bytes, ..self.requirements }),
    {
        let mut requirements = self.requirements;
        requirements.min_memory_bytes = min_memory_bytes;
        NodeRequirementsBuilder { requirements }
    }

    /// Minimum free root filesystem storage in bytes.
    pub fn min_rootfs_bytes(self, min_rootfs_bytes: u64) -> (r: NodeRequirementsBuilder)
        ensures
            r.requirements == (NodeRequirements { min_rootfs_bytes, ..self.requirements }),
    {
        let mut requirements = self.requirements;
        requirements.min_rootfs_bytes = min_rootfs_bytes;
        NodeRequirementsBuilder { requirements }
    }

    /// The requirements built so far.
    pub fn build(self) -> (r: NodeRequirements)
        ensures
            r == self.requirements,
    {
        self.requirements
    }
}

impl NetworkLightSpecBuilder {
    /// The network name.
    pub fn name(self, name: &str) -> (r: NetworkLightSpecBuilder)
        ensures
            r.spec.name matches Some(n) && n@ == name@,
            r.spec == (NetworkLightSpec { name: r.spec.name, ..self.spec }),
    {
        let mut spec = self.spec;
        spec.name = Some(String::from_str(name));
        NetworkLightSpecBuilder { spec }
    }

    /// The subnet of the node in the network.
    pub fn subnet(self, subnet: &str) -> (r: NetworkLightSpecBuilder)
        ensures
            r.spec.subnet matches Some(n) && n@ == subnet@,
            r.spec == (NetworkLightSpec { subnet: r.spec.subnet, ..self.spec }),
    {
        let mut spec = self.spec;
        spec.subnet = Some(String::from_str(subnet));
        NetworkLightSpecBuilder { spec }
    }

    /// The mycelium key of the network.
    pub fn mycelium_key(self, mycelium_key: Vec<u8>) -> (r: NetworkLightSpecBuilder)
        ensures
            r.spec == (NetworkLightSpec { mycelium_key: Some(mycelium_key), ..self.spec }),
    {
        let mut spec = self.spec;
        spec.mycelium_key = Some(mycelium_key);
        NetworkLightSpecBuilder { spec }
    }

    /// The spec built so far.
    pub fn build(self) -> (r: NetworkLightSpec)
        ensures
            r == self.spec,
    {
        self.spec
    }
}

impl FullNetworkSpecBuilder {
    /// The network name.
    pub fn name(self, name: &str) -> (r: FullNetworkSpecBuilder)
        ensures
            r.spec.name matches Some(n) && n@ == name@,
            r.spec == (FullNetworkSpec { name: r.spec.name, ..self.spec }),
    {
        let mut spec = self.spec;
        spec.name = Some(String::from_str(name));
        FullNetworkSpecBuilder { spec }
    }

    /// The address range of the whole network.
    pub fn ip_range(self, ip_range: &str) -> (r: FullNetworkSpecBuilder)
        ensures
            r.spec.ip_range matches Some(n) && n@ == ip_range@,
            r.spec == (FullNetworkSpec { ip_range: r.spec.ip_range, ..self.spec }),
    {
        let mut spec = self.spec;
        spec.ip_range = Some(String::from_str(ip_range));
        FullNetworkSpecBuilder { spec }
    }

    /// The subnet of the node in the network.
    pub fn subnet(self, subnet: &str) -> (r: FullNetworkSpecBuilder)
        ensures
            r.spec.subnet matches Some(n) && n@ == subnet@,
            r.spec == (FullNetworkSpec { subnet: r.spec.subnet, ..self.spec }),
    {
        let mut spec = self.spec;
        spec.subnet = Some(String::from_str(subnet));
        FullNetworkSpecBuilder { spec }
    }

    /// The mycelium key of the network.
    pub fn mycelium_key(self, mycelium_key: Vec<u8>) -> (r: FullNetworkSpecBuilder)
        ensures
            r.spec == (FullNetworkSpec { mycelium_key: Some(mycelium_key), ..self.spec }),
    {
        let mut spec = self.spec;
        spec.mycelium_key = Some(mycelium_key);
        FullNetworkSpecBuilder { spec }
    }

    /// The wireguard private key of the node.
    pub fn wireguard_private_key(self, wireguard_private_key: &str) -> (r: FullNetworkSpecBuilder)
        ensures
            r.spec.wireguard_private_key matches Some(n) && n@ == wireguard_private_key@,
            r.spec == (FullNetworkSpec { wireguard_private_key: r.spec.wireguard_private_key, ..self.spec }),
    {
        let mut spec = self.spec;
        spec.wireguard_private_key = Some(String::from_str(wireguard_private_key));
        FullNetworkSpecBuilder { spec }
    }

    /// The wireguard listen port of the node.
    pub fn wireguard_listen_port(self, wireguard_listen_port: u16) -> (r: FullNetworkSpecBuilder)
        ensures
            r.spec == (FullNetworkSpec { wireguard_listen_port: Some(wireguard_listen_port), ..self.spec }),
    {
        let mut spec = self.spec;
        spec.wireguard_listen_port = Some(wireguard_listen_port);
        FullNetworkSpecBuilder { spec }
    }

    /// The spec built so far.
    pub fn build(self) -> (r: FullNetworkSpec)
        ensures
            r == self.spec,
    {
        self.spec
    }
}

impl VmLightSpecBuilder {
    /// The machine name.
    pub fn name(self, name: &str) -> (r: VmLightSpecBuilder)
        ensures
            r.spec.name matches Some(n) && n@ == name@,
            r.spec == (VmLightSpec { name: r.spec.name, ..self.spec }),
    {
        let mut spec = self.spec;
        spec.name = Some(String::from_str(name));
        VmLightSpecBuilder { spec }
    }

    /// The flist the machine boots.
    pub fn flist(self, flist: &str) -> (r: VmLightSpecBuilder)
        ensures
            r.spec.flist@ == flist@,
            r.spec == (VmLightSpec { flist: r.spec.flist, ..self.spec }),
    {
        let mut spec = self.spec;
        spec.flist = String::from_str(flist);
        VmLightSpecBuilder { spec }
    }

    /// Number of cores.
    pub fn cpu(self, cpu: u8) -> (r: VmLightSpecBuilder)
        ensures
            r.spec == (VmLightSpec { cpu, ..self.spec }),
    {
        let mut spec = self.spec;
        spec.cpu = cpu;
        VmLightSpecBuilder { spec }
    }

    /// Memory in bytes.
    pub fn memory_bytes(self, memory_bytes: u64) -> (r: VmLightSpecBuilder)
        ensures
            r.spec == (VmLightSpec { memory_bytes, ..self.spec }),
    {
        let mut spec = self.spec;
        spec.memory_bytes = memory_bytes;
        VmLightSpecBuilder { spec }
    }

    /// Root filesystem size in bytes.
    pub fn rootfs_size_bytes(self, rootfs_size_bytes: u64) -> (r: VmLightSpecBuilder)
        ensures
            r.spec == (VmLightSpec { rootfs_size_bytes, ..self.spec }),
    {
        let mut spec = self.spec;
        spec.rootfs_size_bytes = rootfs_size_bytes;
        VmLightSpecBuilder { spec }
    }

    /// The command the machine runs.
    pub fn entrypoint(self, entrypoint: &str) -> (r: VmLightSpecBuilder)
        ensures
            r.spec.entrypoint@ == entrypoint@,
            r.spec == (VmLightSpec { entrypoint: r.spec.entrypoint, ..self.spec }),
    {
        let mut spec = self.spec;
        spec.entrypoint = String::from_str(entrypoint);
        VmLightSpecBuilder { spec }
    }

    /// Sets an environment variable, replacing an earlier value of `key`.
    pub fn env(self, key: &str, value: &str) -> (r: VmLightSpecBuilder)
        ensures
            r.spec.env@ == self.spec.env@.insert(key@, value@),
            r.spec == (VmLightSpec { env: r.spec.env, ..self.spec }),
    {
        let mut spec = self.spec;
        spec.env.insert(String::from_str(key), String::from_str(value));
        VmLightSpecBuilder { spec }
    }

    /// Mounts the disk `name` at `mountpoint`.
    pub fn mount(self, name: &str, mountpoint: &str) -> (r: VmLightSpecBuilder)
        ensures
            r.spec.mounts@.len() == self.spec.mounts@.len() + 1,
            r.spec.mounts@.drop_last() == self.spec.mounts@,
            r.spec.mounts@.last().name@ == name@,
            r.spec.mounts@.last().mountpoint@ == mountpoint@,
            r.spec == (VmLightSpec { mounts: r.spec.mounts, ..self.spec }),
    {
        let mut spec = self.spec;
        spec.mounts.push(VmLightMount { name: String::from_str(name), mountpoint: String::from_str(mountpoint) });
        assert(spec.mounts@.drop_last() =~= self.spec.mounts@);
        VmLightSpecBuilder { spec }
    }

    /// Adds a volume.
    pub fn volume(self, volume: VolumeMountSpec) -> (r: VmLightSpecBuilder)
        ensures
            r.spec == (VmLightSpec { volumes: r.spec.volumes, ..self.spec }),
            r.spec.volumes@ == self.spec.volumes@.push(volume),
    {
        let mut spec = self.spec;
        spec.volumes.push(volume);
        VmLightSpecBuilder { spec }
    }

    /// Whether the machine runs corex.
    pub fn corex(self, corex: bool) -> (r: VmLightSpecBuilder)
        ensures
            r.spec == (VmLightSpec { corex, ..self.spec }),
    {
        let mut spec = self.spec;
        spec.corex = corex;
        VmLightSpecBuilder { spec }
    }

    /// Adds a GPU.
    pub fn gpu(self, gpu: &str) -> (r: VmLightSpecBuilder)
        ensures
            r.spec.gpu@.len() == self.spec.gpu@.len() + 1,
            r.spec.gpu@.drop_last() == self.spec.gpu@,
            r.spec.gpu@.last()@ == gpu@,
            r.spec == (VmLightSpec { gpu: r.spec.gpu, ..self.spec }),
    {
        let mut spec = self.spec;
        spec.gpu.push(String::from_str(gpu));
        assert(spec.gpu@.drop_last() =~= self.spec.gpu@);
        VmLightSpecBuilder { spec }
    }

    /// The seed of the machine's mycelium address.
    pub fn mycelium_seed(self, mycelium_seed: Vec<u8>) -> (r: VmLightSpecBuilder)
        ensures
            r.spec == (VmLightSpec { mycelium_seed: Some(mycelium_seed), ..self.spec }),
    {
        let mut spec = self.spec;
        spec.mycelium_seed = Some(mycelium_seed);
        VmLightSpecBuilder { spec }
    }

    /// The spec built so far.
    pub fn build(self) -> (r: VmLightSpec)
        ensures
            r == self.spec,
    {
        self.spec
    }
}

impl VmSpecBuilder {
    /// The machine name.
    pub fn name(self, name: &str) -> (r: VmSpecBuilder)
        ensures
            r.spec.name matches Some(n) && n@ == name@,
            r.spec == (VmSpec { name: r.spec.name, ..self.spec }),
    {
        let mut spec = self.spec;
        spec.name = Some(String::from_str(name));
        VmSpecBuilder { spec }
    }

    /// The flist the machine boots.
    pub fn flist(self, flist: &str) -> (r: VmSpecBuilder)
        ensures
            r.spec.flist@ == flist@,
            r.spec == (VmSpec { flist: r.spec.flist, ..self.spec }),
    {
        let mut spec = self.spec;
        spec.flist = String::from_str(flist);
        VmSpecBuilder { spec }
    }

    /// Number of cores.
    pub fn cpu(self, cpu: u8) -> (r: VmSpecBuilder)
        ensures
            r.spec == (VmSpec { cpu, ..self.spec }),
    {
        let mut spec = self.spec;
        spec.cpu = cpu;
        VmSpecBuilder { spec }
    }

    /// Memory in bytes.
    pub fn memory_bytes(self, memory_bytes: u64) -> (r: VmSpecBuilder)
        ensures
            r.spec == (VmSpec { memory_bytes, ..self.spec }),
    {
        let mut spec = self.spec;
        spec.memory_bytes = memory_bytes;
        VmSpecBuilder { spec }
    }

    /// Root filesystem size in bytes.
    pub fn rootfs_size_bytes(self, rootfs_size_bytes: u64) -> (r: VmSpecBuilder)
        ensures
            r.spec == (VmSpec { rootfs_size_bytes, ..self.spec }),
    {
        let mut spec = self.spec;
        spec.rootfs_size_bytes = rootfs_size_bytes;
        VmSpecBuilder { spec }
    }

    /// The command the machine runs.
    pub fn entrypoint(self, entrypoint: &str) -> (r: VmSpecBuilder)
        ensures
            r.spec.entrypoint@ == entrypoint@,
            r.spec == (VmSpec { entrypoint: r.spec.entrypoint, ..self.spec }),
    {
        let mut spec = self.spec;
        spec.entrypoint = String::from_str(entrypoint);
        VmSpecBuilder { spec }
    }

    /// Sets an environment variable, replacing an earlier value of `key`.
    pub fn env(self, key: &str, value: &str) -> (r: VmSpecBuilder)
        ensures
            r.spec.env@ == self.spec.env@.insert(key@, value@),
            r.spec == (VmSpec { env: r.spec.env, ..self.spec }),
    {
        let mut spec = self.spec;
        spec.env.insert(String::from_str(key), String::from_str(value));
        VmSpecBuilder { spec }
    }

    /// Adds a volume.
    pub fn volume(self, volume: VolumeMountSpec) -> (r: VmSpecBuilder)
        ensures
            r.spec == (VmSpec { volumes: r.spec.volumes, ..self.spec }),
            r.spec.volumes@ == self.spec.volumes@.push(volume),
    {
        let mut spec = self.spec;
        spec.volumes.push(volume);
        VmSpecBuilder { spec }
    }

    /// Whether the machine gets a planetary (yggdrasil) address.
    pub fn planetary(self, planetary: bool) -> (r: VmSpecBuilder)
        ensures
            r.spec == (VmSpec { planetary, ..self.spec }),
    {
        let mut spec = self.spec;
        spec.planetary = planetary;
        VmSpecBuilder { spec }
    }

    /// Whether the machine gets a public IPv4 address.
    pub fn public_ipv4(self, public_ipv4: bool) -> (r: VmSpecBuilder)
        ensures
            r.spec == (VmSpec { public_ipv4, ..self.spec }),
    {
        let mut spec = self.spec;
        spec.public_ipv4 = public_ipv4;
        VmSpecBuilder { spec }
    }

    /// Whether the machine gets a public IPv6 address.
    pub fn public_ipv6(self, public_ipv6: bool) -> (r: VmSpecBuilder)
        ensures
            r.spec == (VmSpec { public_ipv6, ..self.spec }),
    {
        let mut spec = self.spec;
        spec.public_ipv6 = public_ipv6;
        VmSpecBuilder { spec }
    }

    /// Whether the machine runs corex.
    pub fn corex(self, corex: bool) -> (r: VmSpecBuilder)
        ensures
            r.spec == (VmSpec { corex, ..self.spec }),
    {
        let mut spec = self.spec;
        spec.corex = corex;
        VmSpecBuilder { spec }
    }

    /// Adds a GPU.
    pub fn gpu(self, gpu: &str) -> (r: VmSpecBuilder)
        ensures
            r.spec.gpu@.len() == self.spec.gpu@.len() + 1,
            r.spec.gpu@.drop_last() == self.spec.gpu@,
            r.spec.gpu@.last()@ == gpu@,
            r.spec == (VmSpec { gpu: r.spec.gpu, ..self.spec }),
    {
        let mut spec = self.spec;
        spec.gpu.push(String::from_str(gpu));
        assert(spec.gpu@.drop_last() =~= self.spec.gpu@);
        VmSpecBuilder { spec }
    }

    /// The seed of the machine's mycelium address.
    pub fn mycelium_seed(self, mycelium_seed: Vec<u8>) -> (r: VmSpecBuilder)
        ensures
            r.spec == (VmSpec { mycelium_seed: Some(mycelium_seed), ..self.spec }),
    {
        let mut spec = self.spec;
        spec.mycelium_seed = Some(mycelium_seed);
        VmSpecBuilder { spec }
    }

    /// The spec built so far.
    pub fn build(self) -> (r: VmSpec)
        ensures
            r == self.spec,
    {
        self.spec
    }
}

} // verus!
