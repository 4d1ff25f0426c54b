//! Nodes as the grid proxy lists them, and the rules that pick one for a
//! deployment.

use vstd::prelude::*;

use crate::error::{is_not_found, GridError};
use crate::live::types::NodeRequirements;
use crate::text::{all_ws, is_blank, str_eq, views};

verus! {

/// Public network configuration of a node.
#[derive(Debug, Clone, Default)]
pub struct ProxyPublicConfig {
    pub domain: String,
    pub gw4: String,
    pub gw6: String,
    pub ipv4: String,
    pub ipv6: String,
}

/// Capacity figures of a node.
#[derive(Debug, Clone, Copy, PartialEq, Eq, Structural)]
pub struct ProxyCapacity {
    pub cru: u64,
    pub mru: u64,
    pub sru: u64,
}

/// A node as the grid proxy lists it.
#[derive(Debug, Clone)]
pub struct ProxyNode {
    pub node_id: u32,
    pub twin_id: u32,
    pub status: String,
    pub healthy: bool,
    pub features: Vec<String>,
    pub farm_free_ips: u64,
    pub public_config: ProxyPublicConfig,
    pub total_resources: ProxyCapacity,
    pub used_resources: ProxyCapacity,
}

/// `a - b`, or 0 when `b` exceeds `a`.
pub open spec fn sat_sub(a: u64, b: u64) -> u64 {
    if a >= b {
        (a - b) as u64
    } else {
        0
    }
}

/// The node lists `feature`.
pub open spec fn spec_has_feature(node: ProxyNode, feature: Seq<char>) -> bool {
    views(node.features@).contains(feature)
}

/// Free memory of a node.
pub open spec fn spec_free_mru(node: ProxyNode) -> u64 {
    sat_sub(node.total_resources.mru, node.used_resources.mru)
}

/// Free root filesystem storage of a node.
pub open spec fn spec_free_sru(node: ProxyNode) -> u64 {
    sat_sub(node.total_resources.sru, node.used_resources.sru)
}

/// Free cores of a node.
pub open spec fn spec_free_cru(node: ProxyNode) -> u64 {
    sat_sub(node.total_resources.cru, node.used_resources.cru)
}

/// The node's public IPv4 setup is complete: address, gateway and domain.
pub open spec fn usable_public_ipv4(node: ProxyNode) -> bool {
    !all_ws(node.public_config.ipv4@) && !all_ws(node.public_config.gw4@) && !all_ws(node.public_config.domain@)
}

/// The node's public IPv6 setup is complete: address and gateway.
pub open spec fn usable_public_ipv6(node: ProxyNode) -> bool {
    !all_ws(node.public_config.ipv6@) && !all_ws(node.public_config.gw6@)
}

/// The node is up, healthy and has the capacity the requirements ask for.
pub open spec fn up_with_capacity(node: ProxyNode, req: NodeRequirements) -> bool {
    &&& node.status@ == "up"@
    &&& node.healthy
    &&& spec_free_mru(node) >= req.min_memory_bytes
    &&& spec_free_sru(node) >= req.min_rootfs_bytes
    &&& spec_free_cru(node) >= req.min_cru
}

/// A node can host a `vm-light` deployment.
pub open spec fn fits_vm_light(node: ProxyNode, req: NodeRequirements) -> bool {
    &&& up_with_capacity(node, req)
    &&& spec_has_feature(node, "network-light"@)
    &&& spec_has_feature(node, "zmachine-light"@)
}

/// A node can host a full VM deployment with the requested public addresses.
pub open spec fn fits_vm(node: ProxyNode, req: NodeRequirements, ipv4: bool, ipv6: bool) -> bool {
    &&& up_with_capacity(node, req)
    &&& spec_has_feature(node, "network"@)
    &&& spec_has_feature(node, "zmachine"@)
    &&& spec_has_feature(node, "volume"@)
    &&& (ipv4 ==> spec_has_feature(node, "ip"@) && node.farm_free_ips != 0 && usable_public_ipv4(node))
    &&& (ipv6 ==> (spec_has_feature(node, "ipv4"@) || spec_has_feature(node, "ip"@)) && node.farm_free_ips
        != 0 && usable_public_ipv6(node))
}

impl ProxyNode {
    /// A node given by id, assumed up, healthy, with both light features and
    /// unbounded capacity.
    pub fn fixed(node_id: u32, twin_id: u32) -> (r: ProxyNode)
        ensures
            r.node_id == node_id,
            r.twin_id == twin_id,
            r.status@ == "up"@,
            r.healthy,
            views(r.features@) == seq!["network-light"@, "zmachine-light"@],
            r.farm_free_ips == 0,
            all_ws(r.public_config.ipv4@) && r.public_config.ipv4@.len() == 0,
            r.public_config.gw4@.len() == 0 && r.public_config.gw6@.len() == 0,
            r.public_config.domain@.len() == 0 && r.public_config.ipv6@.len() == 0,
            r.total_resources == (ProxyCapacity { cru: u64::MAX, mru: u64::MAX, sru: u64::MAX }),
            r.used_resources == (ProxyCapacity { cru: 0, mru: 0, sru: 0 }),
    {
        let mut features: Vec<String> = Vec::new();
        features.push(String::from_str("network-light"));
        features.push(String::from_str("zmachine-light"));
        assert(views(features@) =~= seq!["network-light"@, "zmachine-light"@]);
        ProxyNode {
            node_id,
            twin_id,
            status: String::from_str("up"),
            healthy: true,
            features,
            farm_free_ips: 0,
            public_config: ProxyPublicConfig {
                domain: String::new(),
                gw4: String::new(),
                gw6: String::new(),
                ipv4: String::new(),
                ipv6: String::new(),
            },
            total_resources: ProxyCapacity { cru: u64::MAX, mru: u64::MAX, sru: u64::MAX },
            used_resources: ProxyCapacity { cru: 0, mru: 0, sru: 0 },
        }
    }
}

/// Whether the node lists `feature`.
pub fn has_feature(node: &ProxyNode, feature: &str) -> (r: bool)
    ensures
        r == spec_has_feature(*node, feature@),
{
    let mut i: usize = 0;
    while i < node.features.len()
        invariant
            i <= node.features@.len(),
            forall|j: int| 0 <= j < i ==> #[trigger] node.features@[j]@ != feature@,
        decreases node.features.len() - i,
    {
        if str_eq(node.features[i].as_str(), feature) {
            proof {
                assert(views(node.features@)[i as int] == feature@);
            }
            return true;
        }
        i = i + 1;
    }
    proof {
        if views(node.features@).contains(feature@) {
            let j = choose|j: int| 0 <= j < views(node.features@).len() && views(node.features@)[j] == feature@;
            assert(node.features@[j]@ == feature@);
        }
    }
    false
}

/// Free memory of the node.
pub fn free_mru(node: &ProxyNode) -> (r: u64)
    ensures
        r == spec_free_mru(*node),
{
    node.total_resources.mru.saturating_sub(node.used_resources.mru)
}

/// Free root filesystem storage of the node.
pub fn free_sru(node: &ProxyNode) -> (r: u64)
    ensures
        r == spec_free_sru(*node),
{
    node.total_resources.sru.saturating_sub(node.used_resources.sru)
}

/// Free cores of the node.
pub fn free_cru(node: &ProxyNode) -> (r: u64)
    ensures
        r == spec_free_cru(*node),
{
    node.total_resources.cru.saturating_sub(node.used_resources.cru)
}

/// Whether the node's public IPv4 setup is complete.
pub fn node_has_usable_public_ipv4(node: &ProxyNode) -> (r: bool)
    ensures
        r == usable_public_ipv4(*node),
{
    !is_blank(node.public_config.ipv4.as_str()) && !is_blank(node.public_config.gw4.as_str()) && !is_blank(
        node.public_config.domain.as_str(),
    )
}

/// Whether the node's public IPv6 setup is complete.
pub fn node_has_usable_public_ipv6(node: &ProxyNode) -> (r: bool)
    ensures
        r == usable_public_ipv6(*node),
{
    !is_blank(node.public_config.ipv6.as_str()) && !is_blank(node.public_config.gw6.as_str())
}

fn is_up_with_capacity(node: &ProxyNode, req: &NodeRequirements) -> (r: bool)
    ensures
        r == up_with_capacity(*node, *req),
{
    str_eq(node.status.as_str(), "up") && node.healthy && free_mru(node) >= req.min_memory_bytes && free_sru(node)
        >= req.min_rootfs_bytes && free_cru(node) >= req.min_cru
}

/// Whether the node can host a `vm-light` deployment.
pub fn node_fits_vm_light(node: &ProxyNode, req: &NodeRequirements) -> (r: bool)
    ensures
        r == fits_vm_light(*node, *req),
{
    is_up_with_capacity(node, req) && has_feature(node, "network-light") && has_feature(node, "zmachine-light")
}

/// Whether the node can host a full VM with the requested public addresses.
pub fn node_fits_vm(node: &ProxyNode, req: &NodeRequirements, ipv4: bool, ipv6: bool) -> (r: bool)
    ensures
        r == fits_vm(*node, *req, ipv4, ipv6),
{
    let has_base = is_up_with_capacity(node, req) && has_feature(node, "network") && has_feature(node, "zmachine")
        && has_feature(node, "volume");
    if !has_base {
        return false;
    }
    if ipv4 && (!has_feature(node, "ip") || node.farm_free_ips == 0 || !node_has_usable_public_ipv4(node)) {
        return false;
    }
    if ipv6 && ((!has_feature(node, "ipv4") && !has_feature(node, "ip")) || node.farm_free_ips == 0
        || !node_has_usable_public_ipv6(node)) {
        return false;
    }
    true
}

/// The first listed node that can host a `vm-light` deployment.
pub fn select_vm_light_node(nodes: Vec<ProxyNode>, req: &NodeRequirements) -> (r: Result<ProxyNode, GridError>)
    ensures
        match r {
            Ok(n) => exists|i: int|
                0 <= i < nodes@.len() && nodes@[i] == n && fits_vm_light(n, *req) && forall|j: int|
                    0 <= j < i ==> !fits_vm_light(#[trigger] nodes@[j], *req),
            Err(e) => is_not_found(e, "no devnet node with network-light + zmachine-light"@) && forall|j: int|
                0 <= j < nodes@.len() ==> !fits_vm_light(#[trigger] nodes@[j], *req),
        },
{
    let mut i: usize = 0;
    while i < nodes.len()
        invariant
            i <= nodes@.len(),
            forall|j: int| 0 <= j < i ==> !fits_vm_light(#[trigger] nodes@[j], *req),
        decreases nodes.len() - i,
    {
        if node_fits_vm_light(&nodes[i], req) {
            let mut nodes = nodes;
            return Ok(nodes.remove(i));
        }
        i = i + 1;
    }
    Err(GridError::not_found("no devnet node with network-light + zmachine-light"))
}

/// The first listed node that can host a full VM with the requested public
/// addresses.
pub fn select_vm_node(nodes: Vec<ProxyNode>, req: &NodeRequirements, ipv4: bool, ipv6: bool) -> (r: Result<
    ProxyNode,
    GridError,
>)
    ensures
        match r {
            Ok(n) => exists|i: int|
                0 <= i < nodes@.len() && nodes@[i] == n && fits_vm(n, *req, ipv4, ipv6) && forall|j: int|
                    0 <= j < i ==> !fits_vm(#[trigger] nodes@[j], *req, ipv4, ipv6),
            Err(e) => is_not_found(e, "no devnet node with network + zmachine capabilities"@) && forall|j: int|
                0 <= j < nodes@.len() ==> !fits_vm(#[trigger] nodes@[j], *req, ipv4, ipv6),
        },
{
    let mut i: usize = 0;
    while i < nodes.len()
        invariant
            i <= nodes@.len(),
            forall|j: int| 0 <= j < i ==> !fits_vm(#[trigger] nodes@[j], *req, ipv4, ipv6),
        decreases nodes.len() - i,
    {
        if node_fits_vm(&nodes[i], req, ipv4, ipv6) {
            let mut nodes = nodes;
            return Ok(nodes.remove(i));
        }
        i = i + 1;
    }
    Err(GridError::not_found("no devnet node with network + zmachine capabilities"))
}

} // verus!
