//! The deployment life cycle: create a node contract for a deployment, upload
//! the deployment to its node, cancel it again, and read it back.

use vstd::prelude::*;

use crate::error::GridError;
use crate::json::json_text;
use crate::node::{law_read_after_store, position_of, stored, unique_contracts, without, NodeClient, NodeClientGetter};
use crate::subi::{cancelled, hash_key, new_node_contract, node_of, Identity, SubstrateExt};
use crate::text::{decimal, push_decimal};
use crate::workloads::{deployment_workloads, metadata_model, single_signer, Deployment, VM};
use crate::zos;

verus! {

/// The hash a node contract is created with: the deployment's name, node and
/// solution type joined by colons.
pub open spec fn contract_hash(d: Deployment) -> Seq<char> {
    d.name@ + ":"@ + decimal(d.node_id as nat) + ":"@ + d.solution_type@
}

/// The hash of the node contract of `deployment`.
pub fn deployment_hash(deployment: &Deployment) -> (r: String)
    ensures
        r@ == contract_hash(*deployment),
{
    let mut out = deployment.name.clone();
    out.append(":");
    push_decimal(&mut out, deployment.node_id as u64);
    out.append(":");
    out.append(deployment.solution_type.as_str());
    out
}

/// The number of VMs that ask for a public IPv4 or IPv6 address.
pub open spec fn public_vm_count(vms: Seq<VM>) -> nat
    decreases vms.len(),
{
    if vms.len() == 0 {
        0
    } else {
        public_vm_count(vms.drop_last()) + if vms.last().public_ip || vms.last().public_ip6 { 1nat } else { 0nat }
    }
}

/// The number of workloads of type `kind` among `ws`.
pub open spec fn count_of_type(ws: Seq<zos::WorkloadView>, kind: Seq<char>) -> nat
    decreases ws.len(),
{
    if ws.len() == 0 {
        0
    } else {
        count_of_type(ws.drop_last(), kind) + if ws.last().workload_type == kind { 1nat } else { 0nat }
    }
}

proof fn lemma_count_of_type_concat(a: Seq<zos::WorkloadView>, b: Seq<zos::WorkloadView>, kind: Seq<char>)
    ensures
        count_of_type(a + b, kind) == count_of_type(a, kind) + count_of_type(b, kind),
    decreases b.len(),
{
    if b.len() == 0 {
        assert(a + b =~= a);
    } else {
        lemma_count_of_type_concat(a, b.drop_last(), kind);
        assert((a + b).drop_last() =~= a + b.drop_last());
        assert((a + b).last() == b.last());
    }
}

/// The public IPs a deployment's contract reserves are as many as the public
/// IP workloads its VMs put in the node deployment: one for each VM that asks
/// for IPv4, IPv6 or both.
pub proof fn law_public_ip_count_matches_workloads(vms: Seq<VM>)
    ensures
        public_vm_count(vms) == count_of_type(
            crate::workloads::flatten(vms.map_values(|x: VM| crate::workloads::vm_workloads(x))),
            zos::PUBLIC_IP_TYPE@,
        ),
    decreases vms.len(),
{
    if vms.len() > 0 {
        let rest = vms.drop_last();
        let vm = vms.last();
        law_public_ip_count_matches_workloads(rest);
        let all = vms.map_values(|x: VM| crate::workloads::vm_workloads(x));
        assert(all.drop_last() =~= rest.map_values(|x: VM| crate::workloads::vm_workloads(x)));
        assert(all.last() == crate::workloads::vm_workloads(vm));
        lemma_count_of_type_concat(crate::workloads::flatten(all.drop_last()), crate::workloads::vm_workloads(vm), zos::PUBLIC_IP_TYPE@);
        crate::workloads::law_public_ip_workload_asks_what_the_vm_asks(vm);
        let ws = crate::workloads::vm_workloads(vm);
        reveal_strlit("zmachine");
        reveal_strlit("ip");
        assert(zos::ZMACHINE_TYPE@.len() == 8);
        assert(zos::PUBLIC_IP_TYPE@.len() == 2);
        if vm.public_ip || vm.public_ip6 {
            assert(ws.len() == 2);
            assert(ws.drop_last().drop_last() =~= Seq::<zos::WorkloadView>::empty());
            assert(ws.drop_last().last() == ws[0]);
            assert(ws.last().workload_type == zos::ZMACHINE_TYPE@);
            assert(count_of_type(ws.drop_last().drop_last(), zos::PUBLIC_IP_TYPE@) == 0);
            assert(count_of_type(ws.drop_last(), zos::PUBLIC_IP_TYPE@) == 1);
            assert(count_of_type(ws, zos::PUBLIC_IP_TYPE@) == 1);
        } else {
            assert(ws.len() == 1);
            assert(ws.drop_last() =~= Seq::<zos::WorkloadView>::empty());
            assert(ws.last().workload_type == zos::ZMACHINE_TYPE@);
            assert(count_of_type(ws.drop_last(), zos::PUBLIC_IP_TYPE@) == 0);
            assert(count_of_type(ws, zos::PUBLIC_IP_TYPE@) == 0);
        }
        assert(crate::workloads::flatten(all) == crate::workloads::flatten(all.drop_last()) + all.last());
        assert(public_vm_count(vms) == public_vm_count(rest) + if vm.public_ip || vm.public_ip6 { 1nat } else { 0nat });
    }
}

proof fn lemma_public_vm_count_bound(vms: Seq<VM>)
    ensures
        public_vm_count(vms) <= vms.len(),
    decreases vms.len(),
{
    if vms.len() > 0 {
        lemma_public_vm_count_bound(vms.drop_last());
    }
}

impl Deployment {
    /// The number of public IPs the deployment's contract reserves: one per
    /// VM that asks for a public IPv4 or IPv6 address.
    pub fn get_public_ip_count(&self) -> (r: u32)
        requires
            self.vms@.len() <= u32::MAX,
        ensures
            r == public_vm_count(self.vms@),
    {
        let mut count: u32 = 0;
        let mut i: usize = 0;
        while i < self.vms.len()
            invariant
                i <= self.vms@.len(),
                self.vms@.len() <= u32::MAX,
                count == public_vm_count(self.vms@.take(i as int)),
            decreases self.vms.len() - i,
        {
            proof {
                assert(self.vms@.take(i + 1).drop_last() =~= self.vms@.take(i as int));
                lemma_public_vm_count_bound(self.vms@.take(i + 1));
            }
            if self.vms[i].public_ip || self.vms[i].public_ip6 {
                count = count + 1;
            }
            i = i + 1;
        }
        assert(self.vms@.take(self.vms@.len() as int) =~= self.vms@);
        count
    }
}

/// The deployment a node receives for `d` under contract `contract_id`,
/// signed by `twin_id`.
pub open spec fn node_deployment_view(d: Deployment, twin_id: u32, contract_id: u64) -> zos::DeploymentView {
    zos::DeploymentView {
        version: 0,
        twin_id,
        contract_id,
        metadata: json_text(metadata_model(d)),
        description: Seq::empty(),
        expiration: 0,
        signature_requirement: single_signer(twin_id),
        workloads: deployment_workloads(d),
    }
}

/// The node deployment of `deployment` under `contract_id`.
pub fn node_deployment(deployment: &Deployment, twin_id: u32, contract_id: u64) -> (r: Result<zos::Deployment, GridError>)
    ensures
        r matches Ok(z) && z@ == node_deployment_view(*deployment, twin_id, contract_id),
{
    let mut z = deployment.zos_deployment(twin_id)?;
    z.contract_id = contract_id;
    Ok(z)
}

/// Creates contracts on a chain `S` and uploads deployments through the node
/// clients of `G`. What the chain and the nodes answer is theirs to decide:
/// the deployer passes their errors on.
pub struct Deployer<S, G> {
    substrate: S,
    nc_pool: G,
}

impl<S: SubstrateExt, G: NodeClientGetter> Deployer<S, G> {
    /// The chain the deployer uses.
    pub closed spec fn chain(self) -> S {
        self.substrate
    }

    /// The node clients the deployer uses.
    pub closed spec fn pool(self) -> G {
        self.nc_pool
    }

    /// A deployer over `substrate` and `nc_pool`.
    pub fn new(substrate: S, nc_pool: G) -> (r: Self)
        ensures
            r.chain() == substrate,
            r.pool() == nc_pool,
    {
        Deployer { substrate, nc_pool }
    }

    /// The chain the deployer uses.
    pub fn substrate(&self) -> (r: &S)
        ensures
            *r == self.chain(),
    {
        &self.substrate
    }

    /// The node clients the deployer uses.
    pub fn nc_pool(&self) -> (r: &G)
        ensures
            *r == self.pool(),
    {
        &self.nc_pool
    }

    /// Deploys `deployment`: looks up its node's twin, creates a node
    /// contract with the deployment's metadata, its [`contract_hash`] and its
    /// public IP count, then uploads the [`node_deployment`] under the new
    /// contract to the node. Returns the contract id.
    pub fn deploy(&mut self, identity: &Identity, deployment: &Deployment) -> (r: Result<u64, GridError>)
        requires
            deployment.vms@.len() <= u32::MAX,
        ensures
            r matches Ok(id) ==> {
                let node = deployment.node_id;
                &&& old(self).chain().twins_view().contains_key(node)
                &&& final(self).chain().contracts_view().contains_key(id)
                &&& new_node_contract(
                    final(self).chain().contracts_view()[id],
                    id,
                    node,
                    json_text(metadata_model(*deployment)),
                    public_vm_count(deployment.vms@) as u32,
                )
                &&& final(self).chain().hashes_view() == old(self).chain().hashes_view().insert(
                    hash_key(node, contract_hash(*deployment)),
                    id,
                )
                &&& final(self).pool().node_held(node) == stored(
                    old(self).pool().node_held(node),
                    node_deployment_view(*deployment, old(self).chain().twins_view()[node], id),
                )
                &&& forall|n: u32| n != node ==> #[trigger] final(self).pool().node_held(n) == old(self).pool().node_held(n)
            },
            forall|n: u32| n != deployment.node_id ==> #[trigger] final(self).pool().node_held(n) == old(self).pool().node_held(n),
            !old(self).chain().twins_view().contains_key(deployment.node_id) ==> r is Err && final(self).chain() == old(self).chain()
                && final(self).pool() == old(self).pool(),
    {
        let node_id = deployment.node_id;
        let twin = self.substrate.get_node_twin(node_id)?;
        let metadata = deployment.generate_metadata();
        let hash = deployment_hash(deployment);
        let public_ips = deployment.get_public_ip_count();
        let contract_id = self.substrate.create_node_contract(identity, node_id, metadata.as_str(), hash.as_str(), public_ips)?;
        let zos_dep = node_deployment(deployment, twin, contract_id)?;
        let client = self.nc_pool.get_node_client(&self.substrate, node_id)?;
        client.deployment_put(zos_dep)?;
        Ok(contract_id)
    }

    /// Cancels the contract `contract_id`, then, for a node or rent contract,
    /// asks its node to delete the deployment (ignoring what the node says).
    pub fn cancel(&mut self, identity: &Identity, contract_id: u64) -> (r: Result<(), GridError>)
        ensures
            r is Ok ==> old(self).chain().contracts_view().contains_key(contract_id)
                && final(self).chain().contracts_view() == cancelled(old(self).chain().contracts_view(), contract_id),
            r is Ok ==> match node_of(old(self).chain().contracts_view()[contract_id].contract_type) {
                None => final(self).pool() == old(self).pool(),
                Some(node) => final(self).pool().node_held(node) == without(old(self).pool().node_held(node), contract_id)
                    || final(self).pool().node_held(node) == old(self).pool().node_held(node),
            },
            final(self).chain().contracts_view() == old(self).chain().contracts_view()
                || final(self).chain().contracts_view() == cancelled(old(self).chain().contracts_view(), contract_id),
            forall|n: u32| !(old(self).chain().contracts_view().contains_key(contract_id) && node_of(
                old(self).chain().contracts_view()[contract_id].contract_type,
            ) == Some(n)) ==> #[trigger] final(self).pool().node_held(n) == old(self).pool().node_held(n),
    {
        self.substrate.cancel_contract(identity, contract_id)?;
        let contract = self.substrate.get_contract(contract_id)?;
        if let Some(node_id) = contract.contract_type.node_id() {
            let client = self.nc_pool.get_node_client(&self.substrate, node_id)?;
            let _ = client.deployment_delete(contract_id);
        }
        Ok(())
    }

    /// The deployment of `contract_id` as the node `node_id` holds it.
    pub fn load_node_deployment(&mut self, node_id: u32, contract_id: u64) -> (r: Result<zos::Deployment, GridError>)
        ensures
            r matches Ok(d) ==> {
                &&& position_of(old(self).pool().node_held(node_id), contract_id) matches Some(i)
                &&& d@ == old(self).pool().node_held(node_id)[i]
                &&& forall|n: u32| #[trigger] final(self).pool().node_held(n) == old(self).pool().node_held(n)
            },
            final(self).chain() == old(self).chain(),
    {
        let client = self.nc_pool.get_node_client(&self.substrate, node_id)?;
        client.deployment_get(contract_id)
    }
}

/// What a node gives back for the contract of a deployment just made is the
/// node deployment that was sent: when the node held no two deployments
/// under one contract before `deploy` returned `Ok(id)`, whatever
/// `load_node_deployment` then reads under `id` on that node is it.
pub proof fn law_node_gives_back_what_was_deployed<S: SubstrateExt, G: NodeClientGetter>(
    before: Deployer<S, G>,
    after: Deployer<S, G>,
    deployment: Deployment,
    id: u64,
    read: zos::DeploymentView,
)
    requires
        unique_contracts(before.pool().node_held(deployment.node_id)),
        after.pool().node_held(deployment.node_id) == stored(
            before.pool().node_held(deployment.node_id),
            node_deployment_view(deployment, before.chain().twins_view()[deployment.node_id], id),
        ),
        position_of(after.pool().node_held(deployment.node_id), id) matches Some(i)
            && read == after.pool().node_held(deployment.node_id)[i],
    ensures
        read == node_deployment_view(deployment, before.chain().twins_view()[deployment.node_id], id),
{
    let sent = node_deployment_view(deployment, before.chain().twins_view()[deployment.node_id], id);
    law_read_after_store(before.pool().node_held(deployment.node_id), sent);
}

} // verus!
