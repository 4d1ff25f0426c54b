//! What the client knows of its deployments on the grid, and how it reads
//! workloads and networks back from the nodes.

use std::collections::HashMap;

use vstd::hash_map::StringHashMap;
use vstd::prelude::*;
use vstd::std_specs::iter::IteratorSpec;

use crate::error::{is_not_found, is_validation, GridError};
use crate::node::{deployment_views, NodeClient, NodeClientGetter};
use crate::subi::{numbered, SubstrateExt};
use crate::text::{is_blank, push_decimal, str_eq, trim, u64_to_decimal};
use crate::workloads;
use crate::zos;
use crate::zos::{cidr_parts, WorkloadView};

verus! {

broadcast use vstd::std_specs::hash::group_hash_axioms;

// ---------------------------------------------------------------------------
// Networks
// ---------------------------------------------------------------------------

/// The subnets of one network, per node.
#[derive(Debug)]
pub struct Network {
    pub subnets: HashMap<u32, String>,
}

impl Clone for Network {
    fn clone(&self) -> (r: Self)
        ensures
            r.subnets@ == self.subnets@,
    {
        Network { subnets: self.subnets.clone() }
    }
}

impl Default for Network {
    fn default() -> (r: Self)
        ensures
            r.subnets@ == Map::<u32, String>::empty(),
    {
        Network { subnets: HashMap::new() }
    }
}

/// The subnet recorded for `node_id`, or empty text.
pub open spec fn subnet_of(subnets: Map<u32, String>, node_id: u32) -> Seq<char> {
    if subnets.contains_key(node_id) {
        subnets[node_id]@
    } else {
        Seq::empty()
    }
}

impl Network {
    /// A network with no subnets.
    pub fn new() -> (r: Network)
        ensures
            r.subnets@ == Map::<u32, String>::empty(),
    {
        Network { subnets: HashMap::new() }
    }

    /// The subnet of `node_id`, or empty text.
    pub fn get_node_subnet(&self, node_id: u32) -> (r: String)
        ensures
            r@ == subnet_of(self.subnets@, node_id),
    {
        match self.subnets.get(&node_id) {
            Some(s) => s.clone(),
            None => String::new(),
        }
    }

    /// Records the subnet of `node_id`.
    pub fn set_node_subnet(&mut self, node_id: u32, subnet: &str)
        ensures
            final(self).subnets@.dom() == old(self).subnets@.dom().insert(node_id),
            final(self).subnets@[node_id]@ == subnet@,
            forall|n: u32| n != node_id && #[trigger] old(self).subnets@.contains_key(n) ==> final(self).subnets@[n] == old(self).subnets@[n],
    {
        self.subnets.insert(node_id, String::from_str(subnet));
        assert(self.subnets@.dom() =~= old(self).subnets@.dom().insert(node_id));
    }
}

/// The networks the client knows, by name.
pub struct NetworkState {
    pub state: StringHashMap<Network>,
}

/// The subnets known for network `name`; none when it is unknown.
pub open spec fn subnets_of(state: Map<Seq<char>, Network>, name: Seq<char>) -> Map<u32, String> {
    if state.contains_key(name) {
        state[name].subnets@
    } else {
        Map::empty()
    }
}

impl Default for NetworkState {
    fn default() -> (r: Self)
        ensures
            r.state@ == Map::<Seq<char>, Network>::empty(),
    {
        NetworkState { state: StringHashMap::new() }
    }
}

impl NetworkState {
    /// No network known.
    pub fn new() -> (r: NetworkState)
        ensures
            r.state@ == Map::<Seq<char>, Network>::empty(),
    {
        NetworkState { state: StringHashMap::new() }
    }

    /// A copy of network `name`; an empty network when it is unknown.
    pub fn get_network(&self, name: &str) -> (r: Network)
        ensures
            r.subnets@ == subnets_of(self.state@, name@),
    {
        match self.state.get(name) {
            Some(n) => n.clone(),
            None => Network::new(),
        }
    }

    /// Replaces the subnets of network `network_name` (creating it).
    pub fn update_network_subnets(&mut self, network_name: &str, ip_range: HashMap<u32, String>)
        ensures
            final(self).state@.dom() == old(self).state@.dom().insert(network_name@),
            final(self).state@[network_name@].subnets@ == ip_range@,
            forall|n: Seq<char>| n != network_name@ && #[trigger] old(self).state@.contains_key(n) ==> final(self).state@[n] == old(self).state@[n],
    {
        let network = self.get_network(network_name);
        let mut fresh = network;
        fresh.subnets = ip_range;
        self.state.insert(String::from_str(network_name), fresh);
        assert(self.state@.dom() =~= old(self).state@.dom().insert(network_name@));
    }

    /// Forgets network `network_name`.
    pub fn delete_network(&mut self, network_name: &str)
        ensures
            final(self).state@ == old(self).state@.remove(network_name@),
    {
        self.state.remove(network_name);
    }
}

/// What an update records is what a later read of that network gives back,
/// and no other network changes.
pub proof fn law_network_read_after_update(before: NetworkState, after: NetworkState, name: Seq<char>, subnets: HashMap<u32, String>, other: Seq<char>)
    requires
        after.state@.dom() == before.state@.dom().insert(name),
        after.state@[name].subnets@ == subnets@,
        forall|n: Seq<char>| n != name && #[trigger] before.state@.contains_key(n) ==> after.state@[n] == before.state@[n],
    ensures
        subnets_of(after.state@, name) == subnets@,
        other != name ==> subnets_of(after.state@, other) == subnets_of(before.state@, other),
{
}

/// A deleted network reads back as having no subnets.
pub proof fn law_network_read_after_delete(before: NetworkState, after: NetworkState, name: Seq<char>)
    requires
        after.state@ == before.state@.remove(name),
    ensures
        subnets_of(after.state@, name) == Map::<u32, String>::empty(),
{
}

/// The subnet set for a node is what a later read for that node gives back.
pub proof fn law_subnet_read_after_set(before: Network, after: Network, node_id: u32, subnet: Seq<char>, other: u32)
    requires
        after.subnets@.dom() == before.subnets@.dom().insert(node_id),
        after.subnets@[node_id]@ == subnet,
        forall|n: u32| n != node_id && #[trigger] before.subnets@.contains_key(n) ==> after.subnets@[n] == before.subnets@[n],
    ensures
        subnet_of(after.subnets@, node_id) == subnet,
        other != node_id ==> subnet_of(after.subnets@, other) == subnet_of(before.subnets@, other),
{
}

// ---------------------------------------------------------------------------
// Contract bookkeeping
// ---------------------------------------------------------------------------

/// `ids` added to `known` in order, each only when not there yet.
pub open spec fn with_ids(known: Seq<u64>, ids: Seq<u64>) -> Seq<u64>
    decreases ids.len(),
{
    if ids.len() == 0 {
        known
    } else {
        let t = with_ids(known, ids.drop_last());
        if t.contains(ids.last()) {
            t
        } else {
            t.push(ids.last())
        }
    }
}

/// `known` without any of `ids`, order kept.
pub open spec fn without_ids(known: Seq<u64>, ids: Seq<u64>) -> Seq<u64> {
    known.filter(|x: u64| !ids.contains(x))
}

/// The contracts recorded for `node_id`; none when it is not indexed.
pub open spec fn ids_of(m: Map<u32, Vec<u64>>, node_id: u32) -> Seq<u64> {
    if m.contains_key(node_id) {
        m[node_id]@
    } else {
        Seq::empty()
    }
}

/// The client's view of its deployments: the contracts on each node, the
/// networks, the node clients and the chain.
pub struct State<G: NodeClientGetter, S: SubstrateExt> {
    pub current_node_deployments: HashMap<u32, Vec<u64>>,
    pub networks: NetworkState,
    pub nc_pool: G,
    pub substrate: S,
}

/// The text of a not-found error about node `node_id` not being indexed.
pub open spec fn not_indexed(node_id: u32) -> Seq<char> {
    "node "@ + crate::text::decimal(node_id as nat) + " not indexed"@
}

impl<G: NodeClientGetter, S: SubstrateExt> State<G, S> {
    /// Nothing indexed yet.
    pub fn new(nc_pool: G, substrate: S) -> (r: State<G, S>)
        ensures
            r.current_node_deployments@ == Map::<u32, Vec<u64>>::empty(),
            r.networks.state@ == Map::<Seq<char>, Network>::empty(),
            r.nc_pool == nc_pool,
            r.substrate == substrate,
    {
        State { current_node_deployments: HashMap::new(), networks: NetworkState::new(), nc_pool, substrate }
    }

    /// Indexes `contract_ids` under `node_id`, each once.
    pub fn store_contract_ids(&mut self, node_id: u32, contract_ids: &[u64])
        ensures
            final(self).current_node_deployments@.dom() == old(self).current_node_deployments@.dom().insert(node_id),
            final(self).current_node_deployments@[node_id]@ == with_ids(ids_of(old(self).current_node_deployments@, node_id), contract_ids@),
            forall|n: u32| n != node_id && #[trigger] old(self).current_node_deployments@.contains_key(n)
                ==> final(self).current_node_deployments@[n] == old(self).current_node_deployments@[n],
            final(self).networks.state@ == old(self).networks.state@,
    {
        let mut entry: Vec<u64> = match self.current_node_deployments.remove(&node_id) {
            Some(v) => v,
            None => Vec::new(),
        };
        let ghost start = entry@;
        assert(start == ids_of(old(self).current_node_deployments@, node_id));
        let mut i: usize = 0;
        while i < contract_ids.len()
            invariant
                i <= contract_ids@.len(),
                entry@ == with_ids(start, contract_ids@.take(i as int)),
            decreases contract_ids.len() - i,
        {
            proof {
                assert(contract_ids@.take(i + 1).drop_last() =~= contract_ids@.take(i as int));
            }
            let id = contract_ids[i];
            let mut found = false;
            let mut j: usize = 0;
            while j < entry.len()
                invariant
                    j <= entry@.len(),
                    found == exists|k: int| 0 <= k < j && entry@[k] == id,
                decreases entry.len() - j,
            {
                if entry[j] == id {
                    found = true;
                }
                j = j + 1;
            }
            if !found {
                entry.push(id);
            }
            i = i + 1;
        }
        assert(contract_ids@.take(contract_ids@.len() as int) =~= contract_ids@);
        self.current_node_deployments.insert(node_id, entry);
        assert(self.current_node_deployments@.dom() =~= old(self).current_node_deployments@.dom().insert(node_id));
    }

    /// Drops `contract_ids` from what is indexed under `node_id`.
    pub fn remove_contract_ids(&mut self, node_id: u32, contract_ids: &[u64])
        ensures
            old(self).current_node_deployments@.contains_key(node_id) ==> final(self).current_node_deployments@.dom()
                == old(self).current_node_deployments@.dom() && final(self).current_node_deployments@[node_id]@ == without_ids(
                old(self).current_node_deployments@[node_id]@,
                contract_ids@,
            ),
            !old(self).current_node_deployments@.contains_key(node_id) ==> final(self).current_node_deployments@
                == old(self).current_node_deployments@,
            forall|n: u32| n != node_id && #[trigger] old(self).current_node_deployments@.contains_key(n)
                ==> final(self).current_node_deployments@[n] == old(self).current_node_deployments@[n],
            final(self).networks.state@ == old(self).networks.state@,
    {
        match self.current_node_deployments.remove(&node_id) {
            Some(v) => {
                let mut kept: Vec<u64> = Vec::new();
                let mut i: usize = 0;
                while i < v.len()
                    invariant
                        i <= v@.len(),
                        kept@ == v@.take(i as int).filter(|x: u64| !contract_ids@.contains(x)),
                    decreases v.len() - i,
                {
                    let x = v[i];
                    let mut drop = false;
                    let mut j: usize = 0;
                    while j < contract_ids.len()
                        invariant
                            j <= contract_ids@.len(),
                            drop == exists|k: int| 0 <= k < j && contract_ids@[k] == x,
                        decreases contract_ids.len() - j,
                    {
                        if contract_ids[j] == x {
                            drop = true;
                        }
                        j = j + 1;
                    }
                    proof {
                        assert(v@.take(i + 1).drop_last() =~= v@.take(i as int));
                        v@.take(i as int).lemma_filter_push(x, |y: u64| !contract_ids@.contains(y));
                        assert(v@.take(i as int).push(x) =~= v@.take(i + 1));
                    }
                    if !drop {
                        kept.push(x);
                    }
                    i = i + 1;
                }
                assert(v@.take(v@.len() as int) =~= v@);
                self.current_node_deployments.insert(node_id, kept);
                assert(self.current_node_deployments@.dom() =~= old(self).current_node_deployments@.dom());
            },
            None => {
                assert(self.current_node_deployments@ =~= old(self).current_node_deployments@);
            },
        }
    }
}

/// After storing, every stored id is indexed under the node.
pub proof fn law_stored_ids_are_indexed(known: Seq<u64>, ids: Seq<u64>, id: u64)
    requires
        ids.contains(id),
    ensures
        with_ids(known, ids).contains(id),
    decreases ids.len(),
{
    let t = with_ids(known, ids.drop_last());
    if ids.last() == id {
        if !t.contains(id) {
            assert(t.push(id)[t.len() as int] == id);
        }
    } else {
        let k = choose|k: int| 0 <= k < ids.len() && ids[k] == id;
        assert(ids.drop_last()[k] == id);
        law_stored_ids_are_indexed(known, ids.drop_last(), id);
        let j = choose|j: int| 0 <= j < t.len() && t[j] == id;
        assert(t.push(ids.last())[j] == id);
    }
}

/// Storing keeps what was indexed, and adds no id twice: an index without
/// repeats stays without repeats.
pub proof fn law_storing_keeps_ids_unique(known: Seq<u64>, ids: Seq<u64>)
    requires
        known.no_duplicates(),
    ensures
        with_ids(known, ids).no_duplicates(),
        known.len() <= with_ids(known, ids).len(),
        forall|i: int| 0 <= i < known.len() ==> #[trigger] with_ids(known, ids)[i] == known[i],
    decreases ids.len(),
{
    if ids.len() > 0 {
        law_storing_keeps_ids_unique(known, ids.drop_last());
    }
}

/// After removing, none of the removed ids is indexed, and the others stay.
pub proof fn law_removed_ids_are_gone(known: Seq<u64>, ids: Seq<u64>, id: u64)
    ensures
        ids.contains(id) ==> !without_ids(known, ids).contains(id),
        !ids.contains(id) ==> (known.contains(id) <==> without_ids(known, ids).contains(id)),
{
    let f = |x: u64| !ids.contains(x);
    known.filter_lemma(f);
    if without_ids(known, ids).contains(id) {
        known.lemma_filter_contains_rev(f, id);
        let k = choose|k: int| 0 <= k < known.filter(f).len() && known.filter(f)[k] == id;
        assert(f(known.filter(f)[k]));
    }
    if known.contains(id) && !ids.contains(id) {
        let k = choose|k: int| 0 <= k < known.len() && known[k] == id;
        known.lemma_filter_contains(f, k);
    }
}

// ---------------------------------------------------------------------------
// Merging maps
// ---------------------------------------------------------------------------

/// Adds the entries of `src` to `dst`, those of `src` winning.
pub fn extend_strings(dst: &mut HashMap<u32, String>, src: &HashMap<u32, String>)
    ensures
        final(dst)@ == old(dst)@.union_prefer_right(src@),
{
    broadcast use vstd::std_specs::hash::axiom_spec_hash_map_iter;
    let ghost v = vstd::std_specs::hash::spec_hash_map_iter(src).remaining();
    let ghost start = dst@;
    for pair in it: src.iter()
        invariant
            it.seq() == v,
            v.no_duplicates(),
            forall|i: int| 0 <= i < v.len() ==> src@.contains_key(*v[i].0) && src@[*v[i].0] == *v[i].1,
            forall|k: u32| #[trigger] dst@.contains_key(k) <==> (start.contains_key(k) || exists|j: int| 0 <= j < it.index() && *v[j].0 == k),
            forall|j: int| 0 <= j < it.index() ==> #[trigger] dst@[*v[j].0] == *v[j].1,
            forall|k: u32| #[trigger] start.contains_key(k) && !(exists|j: int| 0 <= j < it.index() && *v[j].0 == k) ==> dst@[k] == start[k],
    {
        let (k, x) = pair;
        let ghost idx = it.index();
        proof {
            assert forall|j: int| 0 <= j < idx implies *v[j].0 != *k by {
                if *v[j].0 == *k {
                    assert(v[j] == v[idx]);
                }
            }
        }
        dst.insert(*k, x.clone());
    }
    proof {
        assert forall|k: u32| #[trigger] src@.contains_key(k) implies exists|j: int| 0 <= j < v.len() && *v[j].0 == k by {
            assert(v.contains((&k, &src@[k])));
        }
        assert forall|k: u32| #[trigger] src@.contains_key(k) implies dst@[k] == src@[k] by {
            assert(v.contains((&k, &src@[k])));
            let j = choose|j: int| 0 <= j < v.len() && v[j] == (&k, &src@[k]);
        }
    }
    assert(dst@ =~= start.union_prefer_right(src@));
}

/// Adds the entries of `src` to `dst`, those of `src` winning.
pub fn extend_ports(dst: &mut HashMap<u32, i32>, src: &HashMap<u32, i32>)
    ensures
        final(dst)@ == old(dst)@.union_prefer_right(src@),
{
    broadcast use vstd::std_specs::hash::axiom_spec_hash_map_iter;
    let ghost v = vstd::std_specs::hash::spec_hash_map_iter(src).remaining();
    let ghost start = dst@;
    for pair in it: src.iter()
        invariant
            it.seq() == v,
            v.no_duplicates(),
            forall|i: int| 0 <= i < v.len() ==> src@.contains_key(*v[i].0) && src@[*v[i].0] == *v[i].1,
            forall|k: u32| #[trigger] dst@.contains_key(k) <==> (start.contains_key(k) || exists|j: int| 0 <= j < it.index() && *v[j].0 == k),
            forall|j: int| 0 <= j < it.index() ==> #[trigger] dst@[*v[j].0] == *v[j].1,
            forall|k: u32| #[trigger] start.contains_key(k) && !(exists|j: int| 0 <= j < it.index() && *v[j].0 == k) ==> dst@[k] == start[k],
    {
        let (k, x) = pair;
        let ghost idx = it.index();
        proof {
            assert forall|j: int| 0 <= j < idx implies *v[j].0 != *k by {
                if *v[j].0 == *k {
                    assert(v[j] == v[idx]);
                }
            }
        }
        dst.insert(*k, *x);
    }
    proof {
        assert forall|k: u32| #[trigger] src@.contains_key(k) implies exists|j: int| 0 <= j < v.len() && *v[j].0 == k by {
            assert(v.contains((&k, &src@[k])));
        }
        assert forall|k: u32| #[trigger] src@.contains_key(k) implies dst@[k] == src@[k] by {
            assert(v.contains((&k, &src@[k])));
            let j = choose|j: int| 0 <= j < v.len() && v[j] == (&k, &src@[k]);
        }
    }
    assert(dst@ =~= start.union_prefer_right(src@));
}

/// Adds the entries of `src` to `dst`, those of `src` winning.
pub fn extend_bytes(dst: &mut HashMap<u32, Vec<u8>>, src: &HashMap<u32, Vec<u8>>)
    ensures
        final(dst)@.dom() == old(dst)@.dom().union(src@.dom()),
        forall|k: u32| #[trigger] final(dst)@.contains_key(k) ==> final(dst)@[k]@ == (if src@.contains_key(k) {
            src@[k]@
        } else {
            old(dst)@[k]@
        }),
{
    broadcast use vstd::std_specs::hash::axiom_spec_hash_map_iter;
    let ghost v = vstd::std_specs::hash::spec_hash_map_iter(src).remaining();
    let ghost start = dst@;
    for pair in it: src.iter()
        invariant
            it.seq() == v,
            v.no_duplicates(),
            forall|i: int| 0 <= i < v.len() ==> src@.contains_key(*v[i].0) && src@[*v[i].0] == *v[i].1,
            forall|k: u32| #[trigger] dst@.contains_key(k) <==> (start.contains_key(k) || exists|j: int| 0 <= j < it.index() && *v[j].0 == k),
            forall|j: int| 0 <= j < it.index() ==> #[trigger] dst@[*v[j].0]@ == (*v[j].1)@,
            forall|k: u32| #[trigger] start.contains_key(k) && !(exists|j: int| 0 <= j < it.index() && *v[j].0 == k) ==> dst@[k]@ == start[k]@,
    {
        let (k, x) = pair;
        let ghost idx = it.index();
        proof {
            assert forall|j: int| 0 <= j < idx implies *v[j].0 != *k by {
                if *v[j].0 == *k {
                    assert(v[j] == v[idx]);
                }
            }
        }
        dst.insert(*k, vstd::slice::slice_to_vec(x.as_slice()));
    }
    proof {
        assert forall|k: u32| #[trigger] src@.contains_key(k) implies exists|j: int| 0 <= j < v.len() && *v[j].0 == k by {
            assert(v.contains((&k, &src@[k])));
        }
        assert forall|k: u32| #[trigger] src@.contains_key(k) implies dst@[k]@ == src@[k]@ by {
            assert(v.contains((&k, &src@[k])));
            let j = choose|j: int| 0 <= j < v.len() && v[j] == (&k, &src@[k]);
        }
    }
    assert(dst@.dom() =~= start.dom().union(src@.dom()));
}

// ---------------------------------------------------------------------------
// Reading deployments back
// ---------------------------------------------------------------------------

/// The text of the not-found error for a contract without metadata.
pub open spec fn no_metadata(contract_id: u64) -> Seq<char> {
    "contract "@ + crate::text::decimal(contract_id as nat) + " has no deployment metadata"@
}

/// The metadata a contract holds for a deployment, given what the chain
/// answered for contract `contract_id`.
pub fn metadata_from_contract(contract_id: u64, contract: Result<crate::subi::Contract, GridError>) -> (r: Result<String, GridError>)
    ensures
        match contract {
            Err(e) => r == Err::<String, GridError>(e),
            Ok(c) => if c.contract_type.node_contract.deployment_data@.len() == 0 {
                r matches Err(e) && is_not_found(e, no_metadata(contract_id))
            } else {
                r matches Ok(m) && m@ == c.contract_type.node_contract.deployment_data@
            },
        },
{
    match contract {
        Err(e) => Err(e),
        Ok(c) => {
            let data = c.contract_type.node_contract.deployment_data;
            if data.unicode_len() == 0 {
                let m = String::from_str("contract ").concat(u64_to_decimal(contract_id).as_str()).concat(" has no deployment metadata");
                Err(GridError::NotFound(m))
            } else {
                Ok(data)
            }
        },
    }
}

/// The metadata text of deployment `d` on a chain holding contracts `cs`:
/// its own when not blank, else the deployment data of its contract when
/// that is not empty; none otherwise.
pub open spec fn metadata_text(d: zos::DeploymentView, cs: Map<u64, crate::subi::Contract>) -> Option<Seq<char>> {
    if !crate::text::all_ws(d.metadata) {
        Some(d.metadata)
    } else if d.contract_id != 0 && cs.contains_key(d.contract_id)
        && cs[d.contract_id].contract_type.node_contract.deployment_data@.len() > 0 {
        Some(cs[d.contract_id].contract_type.node_contract.deployment_data@)
    } else {
        None
    }
}

/// The (version, kind, name, project) that the metadata of `d` reads as;
/// none when it cannot be had or does not read.
pub open spec fn deployment_info(d: zos::DeploymentView, cs: Map<u64, crate::subi::Contract>) -> Option<(i32, Seq<char>, Seq<char>, Seq<char>)> {
    match metadata_text(d, cs) {
        Some(t) => match crate::json::json_parse(t) {
            Ok(v) => workloads::deployment_data_of(v),
            Err(_) => None,
        },
        None => None,
    }
}

/// `i` is the first of deployments `ds` whose metadata names it `name`,
/// every deployment before it having metadata that reads and names another.
pub open spec fn first_deployment_named(ds: Seq<zos::DeploymentView>, cs: Map<u64, crate::subi::Contract>, name: Seq<char>, i: int) -> bool {
    &&& 0 <= i < ds.len()
    &&& deployment_info(ds[i], cs) matches Some(x) && x.2 == name
    &&& forall|j: int| 0 <= j < i ==> (#[trigger] deployment_info(ds[j], cs) matches Some(x) && x.2 != name)
}

/// The metadata of a deployment: its own when not blank, else what its
/// contract holds on the chain (see [`metadata_from_contract`]).
pub fn resolve_metadata<S: SubstrateExt>(substrate: &S, deployment: &zos::Deployment) -> (r: Result<String, GridError>)
    ensures
        !crate::text::all_ws(deployment.metadata@) ==> (r matches Ok(m) && m@ == deployment.metadata@),
        crate::text::all_ws(deployment.metadata@) && deployment.contract_id == 0 ==> (r matches Err(e) && is_not_found(
            e,
            "contract id not set"@,
        )),
        r matches Ok(m) ==> m@.len() > 0 && metadata_text(deployment@, substrate.contracts_view()) == Some(m@),
{
    if !is_blank(deployment.metadata.as_str()) {
        proof {
            if deployment.metadata@.len() == 0 {
                assert(crate::text::all_ws(deployment.metadata@));
            }
        }
        return Ok(deployment.metadata.clone());
    }
    if deployment.contract_id == 0 {
        return Err(GridError::not_found("contract id not set"));
    }
    let contract = substrate.get_contract(deployment.contract_id);
    metadata_from_contract(deployment.contract_id, contract)
}

/// The wireguard address of a user of network `ip_range`: `100.64.c.d` for
/// an IPv4 range `a.b.c.d/n`; none for IPv6 or text that does not parse.
pub open spec fn wg_ip_of(ip_range: Seq<char>) -> Option<Seq<char>> {
    match cidr_parts(ip_range) {
        Some(p) => if p.0.len() == 4 {
            Some("100.64."@ + crate::text::decimal(p.0[2] as nat) + "."@ + crate::text::decimal(p.0[3] as nat))
        } else {
            None
        },
        None => None,
    }
}

/// The wireguard address of a user of an IPv4 network keeps the host part
/// of the network's address: for a range written `a.b.c.d/n` it is
/// `100.64.c.d`, the third and fourth octets as `ipnet` read them.
pub proof fn law_wg_address_keeps_last_octets(ip_range: Seq<char>, octets: Seq<u8>, prefix: u8)
    requires
        zos::cidr_parts(ip_range) == Some((octets, prefix)),
        octets.len() == 4,
    ensures
        wg_ip_of(ip_range) == Some("100.64."@ + crate::text::decimal(octets[2] as nat) + "."@ + crate::text::decimal(octets[3] as nat)),
{
}

/// The wireguard address of a user of network `ip_range` (see [`wg_ip_of`]).
pub fn compute_wg_ip(ip_range: &str) -> (r: Option<String>)
    ensures
        match wg_ip_of(ip_range@) {
            Some(t) => r matches Some(s) && s@ == t,
            None => r is None,
        },
{
    match zos::parse_ip_net(ip_range) {
        Some(p) => {
            if p.0.len() == 4 {
                let mut s = String::from_str("100.64.");
                push_decimal(&mut s, p.0[2] as u64);
                s.append(".");
                push_decimal(&mut s, p.0[3] as u64);
                proof {
                    reveal_strlit("100.64.");
                    reveal_strlit(".");
                }
                Some(s)
            } else {
                None
            }
        },
        None => None,
    }
}

/// A wireguard configuration for a user of a network.
pub open spec fn wg_config_text(wg_ip: Seq<char>, access_private_key: Seq<char>, node_public_key: Seq<char>, endpoint: Seq<char>, network_range: Seq<char>) -> Seq<char> {
    "\n[Interface]\nAddress = "@ + wg_ip + "\nPrivateKey = "@ + access_private_key + "\n[Peer]\nPublicKey = "@
        + node_public_key + "\nAllowedIPs = "@ + network_range + ", 100.64.0.0/16\nPersistentKeepalive = 25\nEndpoint = "@
        + endpoint + "\n\t"@
}

/// The wireguard configuration of a user of a network (see
/// [`wg_config_text`]).
pub fn format_wg_config(wg_ip: &str, access_private_key: &str, node_public_key: &str, endpoint: &str, network_range: &str) -> (r: String)
    ensures
        r@ == wg_config_text(wg_ip@, access_private_key@, node_public_key@, endpoint@, network_range@),
{
    let mut s = String::from_str("\n[Interface]\nAddress = ");
    s.append(wg_ip);
    s.append("\nPrivateKey = ");
    s.append(access_private_key);
    s.append("\n[Peer]\nPublicKey = ");
    s.append(node_public_key);
    s.append("\nAllowedIPs = ");
    s.append(network_range);
    s.append(", 100.64.0.0/16\nPersistentKeepalive = 25\nEndpoint = ");
    s.append(endpoint);
    s.append("\n\t");
    s
}

/// The workload named `workload_name` in a deployment; the empty name asks
/// for the deployment alone and gives an empty workload.
pub fn select_workload(deployment: &zos::Deployment, workload_name: &str, deployment_name: &str) -> (r: Result<zos::Workload, GridError>)
    ensures
        workload_name@.len() == 0 ==> (r matches Ok(w) && w@ == zos::empty_workload()),
        workload_name@.len() != 0 ==> match zos::first_named(zos::workload_views(deployment.workloads@), workload_name@) {
            Some(i) => r matches Ok(w) && w@ == deployment.workloads@[i]@,
            None => r matches Err(e) && is_not_found(
                e,
                "workload "@ + workload_name@ + " not found in "@ + deployment_name@,
            ),
        },
{
    if workload_name.unicode_len() == 0 {
        return Ok(zos::Workload::default());
    }
    match deployment.workload_with_id(workload_name) {
        Some(w) => Ok(w),
        None => {
            Err(GridError::NotFound(String::from_str("workload ").concat(workload_name).concat(" not found in ").concat(deployment_name)))
        },
    }
}

fn not_indexed_error(node_id: u32) -> (r: GridError)
    ensures
        is_not_found(r, not_indexed(node_id)),
{
    GridError::NotFound(String::from_str("node ").concat(u64_to_decimal(node_id as u64).as_str()).concat(" not indexed"))
}

/// The first worker, from the front, whose node has no subnet in `subnets`.
pub open spec fn worker_without_range(subnets: Map<u32, String>, workers: Seq<workloads::K8sNode>) -> Option<u32>
    decreases workers.len(),
{
    if workers.len() == 0 {
        None
    } else if subnet_of(subnets, workers[0].vm.node_id).len() == 0 {
        Some(workers[0].vm.node_id)
    } else {
        worker_without_range(subnets, workers.drop_first())
    }
}

/// Why a cluster's nodes cannot all get an IP range: its master, then its
/// first worker, without a subnet.
pub open spec fn missing_range(subnets: Map<u32, String>, c: workloads::K8sCluster) -> Option<Seq<char>> {
    match c.master {
        Some(m) if subnet_of(subnets, m.vm.node_id).len() == 0 => Some(
            "failed to get ip range for master node "@ + crate::text::decimal(m.vm.node_id as nat),
        ),
        _ => match worker_without_range(subnets, c.workers@) {
            Some(n) => Some("failed to get ip range for worker node "@ + crate::text::decimal(n as nat)),
            None => None,
        },
    }
}

/// The nodes of a cluster: its master, if any, then its workers.
pub open spec fn cluster_node(c: workloads::K8sCluster, n: u32) -> bool {
    (c.master matches Some(m) && m.vm.node_id == n) || exists|i: int| 0 <= i < c.workers@.len() && #[trigger] c.workers@[i].vm.node_id == n
}

proof fn lemma_no_worker_without_range(subnets: Map<u32, String>, workers: Seq<workloads::K8sNode>, i: int)
    requires
        0 <= i <= workers.len(),
        forall|j: int| 0 <= j < i ==> subnet_of(subnets, #[trigger] workers[j].vm.node_id).len() > 0,
        worker_without_range(subnets, workers.skip(i)) is None,
    ensures
        worker_without_range(subnets, workers) is None,
    decreases i,
{
    if i > 0 {
        let s = workers.skip(i - 1);
        assert(s[0] == workers[i - 1]);
        assert(s.drop_first() =~= workers.skip(i));
        lemma_no_worker_without_range(subnets, workers, i - 1);
    } else {
        assert(workers.skip(0) =~= workers);
    }
}

proof fn lemma_worker_without_range_at(subnets: Map<u32, String>, workers: Seq<workloads::K8sNode>, i: int)
    requires
        0 <= i < workers.len(),
        forall|j: int| 0 <= j < i ==> subnet_of(subnets, #[trigger] workers[j].vm.node_id).len() > 0,
        subnet_of(subnets, workers[i].vm.node_id).len() == 0,
    ensures
        worker_without_range(subnets, workers) == Some(workers[i].vm.node_id),
    decreases i,
{
    if i > 0 {
        let rest = workers.drop_first();
        assert(subnet_of(subnets, workers[0].vm.node_id).len() > 0);
        assert forall|j: int| 0 <= j < i - 1 implies subnet_of(subnets, #[trigger] rest[j].vm.node_id).len() > 0 by {
            assert(rest[j] == workers[j + 1]);
        }
        assert(rest[i - 1] == workers[i]);
        lemma_worker_without_range_at(subnets, rest, i - 1);
    }
}

impl<G: NodeClientGetter, S: SubstrateExt> State<G, S> {
    /// Finds, on an indexed node, the deployment whose metadata names it
    /// `deployment_name`, and in it the workload `workload_name` (see
    /// [`select_workload`]). What the node and the chain answer decides the
    /// rest.
    #[verifier::rlimit(60)]
    pub fn get_workload_in_deployment(&mut self, node_id: u32, workload_name: &str, deployment_name: &str) -> (r: Result<(zos::Workload, zos::Deployment), GridError>)
        ensures
            !old(self).current_node_deployments@.contains_key(node_id) ==> (r matches Err(e) && is_not_found(e, not_indexed(node_id))),
            r matches Ok(p) ==> (workload_name@.len() == 0 ==> p.0@ == zos::empty_workload()) && (workload_name@.len() != 0
                ==> p.0.name@ == workload_name@ && p.1@.workloads.contains(p.0@)),
            r matches Ok(p) ==> exists|i: int| {
                &&& #[trigger] first_deployment_named(old(self).nc_pool.node_held(node_id), old(self).substrate.contracts_view(), deployment_name@, i)
                &&& p.1@ == old(self).nc_pool.node_held(node_id)[i]
                &&& (workload_name@.len() != 0 ==> (zos::first_named(p.1@.workloads, workload_name@) matches Some(k) && p.0@ == p.1@.workloads[k]))
            },
            r is Ok ==> forall|n: u32| #[trigger] final(self).nc_pool.node_held(n) == old(self).nc_pool.node_held(n),
            final(self).current_node_deployments@ == old(self).current_node_deployments@,
            final(self).networks.state@ == old(self).networks.state@,
            final(self).substrate == old(self).substrate,
    {
        if !self.current_node_deployments.contains_key(&node_id) {
            return Err(not_indexed_error(node_id));
        }
        let client = self.nc_pool.get_node_client(&self.substrate, node_id)?;
        let deployments = client.deployment_list()?;
        let ghost ds = old(self).nc_pool.node_held(node_id);
        let ghost cs = old(self).substrate.contracts_view();
        assert(forall|n: u32| #[trigger] self.nc_pool.node_held(n) == old(self).nc_pool.node_held(n));
        let mut i: usize = 0;
        while i < deployments.len()
            invariant
                i <= deployments@.len(),
                forall|n: u32| #[trigger] self.nc_pool.node_held(n) == old(self).nc_pool.node_held(n),
                deployment_views(deployments@) == ds,
                ds == old(self).nc_pool.node_held(node_id),
                cs == old(self).substrate.contracts_view(),
                cs == self.substrate.contracts_view(),
                self.substrate == old(self).substrate,
                old(self).current_node_deployments@.contains_key(node_id),
                self.current_node_deployments@ == old(self).current_node_deployments@,
                self.networks.state@ == old(self).networks.state@,
                forall|j: int| 0 <= j < i ==> (#[trigger] deployment_info(ds[j], cs) matches Some(x) && x.2 != deployment_name@),
            decreases deployments.len() - i,
        {
            assert(ds[i as int] == deployments@[i as int]@);
            let deployment = &deployments[i];
            let meta = resolve_metadata(&self.substrate, deployment)?;
            let data = workloads::parse_deployment_data(meta.as_str())?;
            if str_eq(data.name.as_str(), deployment_name) {
                let w = select_workload(deployment, workload_name, deployment_name)?;
                let d = deployment.clone();
                proof {
                    if workload_name@.len() != 0 {
                        let views = zos::workload_views(deployment.workloads@);
                        zos::lemma_first_named(views, workload_name@);
                        let k = zos::first_named(views, workload_name@).unwrap();
                        assert(d@.workloads == views);
                        assert(views[k] == w@);
                    }
                    assert(deployment_info(ds[i as int], cs) matches Some(x) && x.2 == deployment_name@);
                    assert(first_deployment_named(ds, cs, deployment_name@, i as int));
                    assert(d@ == ds[i as int]);
                    if workload_name@.len() != 0 {
                        let k = zos::first_named(d@.workloads, workload_name@).unwrap();
                        assert(w@ == d@.workloads[k]);
                    }
                }
                return Ok((w, d));
            }
            i = i + 1;
        }
        Err(GridError::NotFound(
            String::from_str("deployment ").concat(deployment_name).concat(" not found on node ").concat(
                u64_to_decimal(node_id as u64).as_str(),
            ),
        ))
    }

    /// A disk read back from the grid.
    pub fn load_disk_from_grid(&mut self, node_id: u32, name: &str, deployment_name: &str) -> (r: Result<workloads::Disk, GridError>)
        ensures
            !old(self).current_node_deployments@.contains_key(node_id) ==> (r matches Err(e) && is_not_found(e, not_indexed(node_id))),
            r matches Ok(d) ==> d.name@ == name@,
            final(self).current_node_deployments@ == old(self).current_node_deployments@,
    {
        let (wl, _) = self.get_workload_in_deployment(node_id, name, deployment_name)?;
        proof {
            if name@.len() == 0 {
                assert(name@ =~= Seq::<char>::empty());
            }
        }
        workloads::new_disk_from_workload(&wl)
    }

    /// A volume read back from the grid.
    pub fn load_volume_from_grid(&mut self, node_id: u32, name: &str, deployment_name: &str) -> (r: Result<workloads::Volume, GridError>)
        ensures
            !old(self).current_node_deployments@.contains_key(node_id) ==> (r matches Err(e) && is_not_found(e, not_indexed(node_id))),
            r matches Ok(d) ==> d.name@ == name@,
            final(self).current_node_deployments@ == old(self).current_node_deployments@,
    {
        let (wl, _) = self.get_workload_in_deployment(node_id, name, deployment_name)?;
        proof {
            if name@.len() == 0 {
                assert(name@ =~= Seq::<char>::empty());
            }
        }
        workloads::new_volume_from_workload(&wl)
    }

    /// A zdb read back from the grid.
    pub fn load_zdb_from_grid(&mut self, node_id: u32, name: &str, deployment_name: &str) -> (r: Result<workloads::ZDB, GridError>)
        ensures
            !old(self).current_node_deployments@.contains_key(node_id) ==> (r matches Err(e) && is_not_found(e, not_indexed(node_id))),
            r matches Ok(d) ==> d.name@ == name@,
            final(self).current_node_deployments@ == old(self).current_node_deployments@,
    {
        let (wl, _) = self.get_workload_in_deployment(node_id, name, deployment_name)?;
        proof {
            if name@.len() == 0 {
                assert(name@ =~= Seq::<char>::empty());
            }
        }
        workloads::new_zdb_from_workload(&wl)
    }

    /// Gives every node of `cluster` the subnet it has in the cluster's
    /// network; a not-found error, with the cluster left as it was, when the
    /// master or a worker has none.
    pub fn assign_nodes_ip_range(&self, cluster: &mut workloads::K8sCluster) -> (r: Result<(), GridError>)
        ensures
            ({
                let subnets = subnets_of(self.networks.state@, old(cluster).network_name@);
                match missing_range(subnets, *old(cluster)) {
                    Some(msg) => (r matches Err(e) && is_not_found(e, msg)) && *final(cluster) == *old(cluster),
                    None => {
                        &&& r is Ok
                        &&& *final(cluster) == (workloads::K8sCluster { nodes_ip_range: final(cluster).nodes_ip_range, ..*old(cluster) })
                        &&& forall|n: u32| #[trigger] final(cluster).nodes_ip_range@.contains_key(n) <==> cluster_node(*old(cluster), n)
                        &&& forall|n: u32| #[trigger] final(cluster).nodes_ip_range@.contains_key(n) ==> final(cluster).nodes_ip_range@[n]@ == subnet_of(subnets, n)
                    },
                }
            }),
    {
        let network = self.networks.get_network(cluster.network_name.as_str());
        let ghost subnets = network.subnets@;
        let mut nodes: HashMap<u32, String> = HashMap::new();
        match &cluster.master {
            Some(master) => {
                let subnet = network.get_node_subnet(master.vm.node_id);
                if subnet.unicode_len() == 0 {
                    let mut msg = String::from_str("failed to get ip range for master node ");
                    push_decimal(&mut msg, master.vm.node_id as u64);
                    return Err(GridError::NotFound(msg));
                }
                nodes.insert(master.vm.node_id, subnet);
            },
            None => {},
        }
        let mut i: usize = 0;
        while i < cluster.workers.len()
            invariant
                i <= cluster.workers@.len(),
                subnets == network.subnets@,
                subnets == subnets_of(self.networks.state@, cluster.network_name@),
                cluster.master matches Some(m) ==> subnet_of(subnets, m.vm.node_id).len() > 0,
                forall|j: int| 0 <= j < i ==> subnet_of(subnets, #[trigger] cluster.workers@[j].vm.node_id).len() > 0,
                forall|n: u32| #[trigger] nodes@.contains_key(n) <==> ((cluster.master matches Some(m) && m.vm.node_id == n) || exists|j: int| 0 <= j < i && #[trigger] cluster.workers@[j].vm.node_id == n),
                forall|n: u32| #[trigger] nodes@.contains_key(n) ==> nodes@[n]@ == subnet_of(subnets, n),
            decreases cluster.workers.len() - i,
        {
            let node_id = cluster.workers[i].vm.node_id;
            let subnet = network.get_node_subnet(node_id);
            if subnet.unicode_len() == 0 {
                proof {
                    lemma_worker_without_range_at(subnets, cluster.workers@, i as int);
                }
                let mut msg = String::from_str("failed to get ip range for worker node ");
                push_decimal(&mut msg, node_id as u64);
                return Err(GridError::NotFound(msg));
            }
            nodes.insert(node_id, subnet);
            proof {
                assert forall|n: u32| #[trigger] nodes@.contains_key(n) <==> ((cluster.master matches Some(m) && m.vm.node_id == n) || exists|j: int| 0 <= j < i + 1 && #[trigger] cluster.workers@[j].vm.node_id == n) by {
                    if n == node_id {
                        assert(cluster.workers@[i as int].vm.node_id == n);
                    }
                }
            }
            i = i + 1;
        }
        proof {
            assert(cluster.workers@.skip(cluster.workers@.len() as int) =~= Seq::<workloads::K8sNode>::empty());
            lemma_no_worker_without_range(subnets, cluster.workers@, cluster.workers@.len() as int);
        }
        cluster.nodes_ip_range = nodes;
        Ok(())
    }

    /// A quantum safe file system read back from its workload in the
    /// deployment `deployment_name` on `node_id`.
    pub fn load_qsfs_from_grid(&mut self, node_id: u32, name: &str, deployment_name: &str) -> (r: Result<workloads::QSFS, GridError>)
        ensures
            !old(self).current_node_deployments@.contains_key(node_id) ==> (r matches Err(e) && is_not_found(e, not_indexed(node_id))),
            final(self).current_node_deployments@ == old(self).current_node_deployments@,
    {
        let (wl, _) = self.get_workload_in_deployment(node_id, name, deployment_name)?;
        workloads::new_qsfs_from_workload(&wl)
    }

    /// A name gateway read back from the grid: its workload carries the
    /// deployment's name; node, contract, project and name contract come
    /// from the node and the chain.
    pub fn load_gateway_name_from_grid(&mut self, node_id: u32, name: &str, deployment_name: &str) -> (r: Result<workloads::GatewayNameProxy, GridError>)
        ensures
            !old(self).current_node_deployments@.contains_key(node_id) ==> (r matches Err(e) && is_not_found(e, not_indexed(node_id))),
            r matches Ok(g) ==> g.node_id == node_id && g.node_deployment_id@ == map![node_id => g.contract_id],
            r matches Ok(g) ==> exists|i: int| {
                let d = old(self).nc_pool.node_held(node_id)[i];
                &&& #[trigger] first_deployment_named(old(self).nc_pool.node_held(node_id), old(self).substrate.contracts_view(), deployment_name@, i)
                &&& g.contract_id == d.contract_id
                &&& deployment_info(d, old(self).substrate.contracts_view()) matches Some(x) && g.solution_type@ == x.3
                &&& (deployment_name@.len() == 0 ==> workloads::gateway_name_read(g, zos::empty_workload()))
                &&& (deployment_name@.len() != 0 ==> (zos::first_named(d.workloads, deployment_name@) matches Some(k)
                    && workloads::gateway_name_read(g, d.workloads[k])))
                &&& old(self).substrate.names_view().contains_key(name@)
                &&& g.name_contract_id == old(self).substrate.names_view()[name@]
            },
            final(self).current_node_deployments@ == old(self).current_node_deployments@,
    {
        let (wl, dl) = self.get_workload_in_deployment(node_id, deployment_name, deployment_name)?;
        let meta = resolve_metadata(&self.substrate, &dl)?;
        let data = workloads::parse_deployment_data(meta.as_str())?;
        let mut gw = workloads::GatewayNameProxy::from_workload(&wl)?;
        gw.node_id = node_id;
        gw.contract_id = dl.contract_id;
        gw.solution_type = data.project_name;
        gw.node_deployment_id.insert(node_id, dl.contract_id);
        gw.name_contract_id = self.substrate.get_contract_id_by_name_registration(name)?;
        assert(gw.node_deployment_id@ =~= map![node_id => gw.contract_id]);
        Ok(gw)
    }

    /// An fqdn gateway read back from the grid.
    pub fn load_gateway_fqdn_from_grid(&mut self, node_id: u32, name: &str, deployment_name: &str) -> (r: Result<workloads::GatewayFQDNProxy, GridError>)
        ensures
            !old(self).current_node_deployments@.contains_key(node_id) ==> (r matches Err(e) && is_not_found(e, not_indexed(node_id))),
            r matches Ok(g) ==> g.node_id == node_id && g.node_deployment_id@ == map![node_id => g.contract_id],
            r matches Ok(g) ==> exists|i: int| {
                let d = old(self).nc_pool.node_held(node_id)[i];
                &&& #[trigger] first_deployment_named(old(self).nc_pool.node_held(node_id), old(self).substrate.contracts_view(), deployment_name@, i)
                &&& g.contract_id == d.contract_id
                &&& deployment_info(d, old(self).substrate.contracts_view()) matches Some(x) && g.solution_type@ == x.3
                &&& (name@.len() == 0 ==> workloads::gateway_fqdn_read(g, zos::empty_workload()))
                &&& (name@.len() != 0 ==> (zos::first_named(d.workloads, name@) matches Some(k)
                    && workloads::gateway_fqdn_read(g, d.workloads[k])))
            },
            final(self).current_node_deployments@ == old(self).current_node_deployments@,
    {
        let (wl, dl) = self.get_workload_in_deployment(node_id, name, deployment_name)?;
        let meta = resolve_metadata(&self.substrate, &dl)?;
        let data = workloads::parse_deployment_data(meta.as_str())?;
        let mut gw = workloads::GatewayFQDNProxy::from_workload(&wl)?;
        gw.node_id = node_id;
        gw.contract_id = dl.contract_id;
        gw.solution_type = data.project_name;
        gw.node_deployment_id.insert(node_id, dl.contract_id);
        assert(gw.node_deployment_id@ =~= map![node_id => gw.contract_id]);
        Ok(gw)
    }
}

// ---------------------------------------------------------------------------
// Networks read back from the nodes
// ---------------------------------------------------------------------------

/// Maps merged from first to last, later entries winning.
pub open spec fn union_all<V>(ms: Seq<Map<u32, V>>) -> Map<u32, V>
    decreases ms.len(),
{
    if ms.len() == 0 {
        Map::empty()
    } else {
        union_all(ms.drop_last()).union_prefer_right(ms.last())
    }
}

proof fn lemma_union_single<V>(ms: Seq<Map<u32, V>>)
    requires
        ms.len() == 1,
    ensures
        union_all(ms) == ms[0],
{
    assert(ms.drop_last() =~= Seq::<Map<u32, V>>::empty());
    assert(union_all(ms.drop_last()) == Map::<u32, V>::empty());
    assert(Map::<u32, V>::empty().union_prefer_right(ms[0]) =~= ms[0]);
}

proof fn lemma_key_views_union(z: Map<u32, Vec<u8>>, before: Map<u32, Vec<u8>>, net: Map<u32, Vec<u8>>)
    requires
        z.dom() == before.dom().union(net.dom()),
        forall|k: u32| #[trigger] z.contains_key(k) ==> z[k]@ == (if net.contains_key(k) { net[k]@ } else { before[k]@ }),
    ensures
        key_views(z) == key_views(before).union_prefer_right(key_views(net)),
{
    assert(key_views(z) =~= key_views(before).union_prefer_right(key_views(net)));
}

/// The nodes of networks, in order.
pub open spec fn all_nodes(nets: Seq<workloads::ZNet>) -> Seq<u32>
    decreases nets.len(),
{
    if nets.len() == 0 {
        Seq::empty()
    } else {
        all_nodes(nets.drop_last()) + nets.last().nodes@
    }
}

/// The first network range that is not empty.
pub open spec fn first_range(nets: Seq<workloads::ZNet>) -> Seq<char>
    decreases nets.len(),
{
    if nets.len() == 0 {
        Seq::empty()
    } else {
        let r = first_range(nets.drop_last());
        if r.len() == 0 {
            nets.last().ip_range@
        } else {
            r
        }
    }
}

pub open spec fn key_views(m: Map<u32, Vec<u8>>) -> Map<u32, Seq<u8>> {
    m.map_values(|v: Vec<u8>| v@)
}

/// `z` is the network put together from the parts `nets` of one network on
/// several nodes: the first part, with the nodes, subnets, mycelium keys,
/// wireguard keys and ports of all parts, and the first range that is set.
pub open spec fn merged_from(z: workloads::ZNet, nets: Seq<workloads::ZNet>) -> bool {
    let f = nets[0];
    &&& z.name == f.name
    &&& z.description == f.description
    &&& z.add_wg_access == f.add_wg_access
    &&& z.solution_type == f.solution_type
    &&& z.access_wg_config == f.access_wg_config
    &&& z.external_ip == f.external_ip
    &&& z.external_sk == f.external_sk
    &&& z.public_node_id == f.public_node_id
    &&& z.node_deployment_id@ == f.node_deployment_id@
    &&& z.nodes@ == all_nodes(nets)
    &&& z.ip_range@ == first_range(nets)
    &&& z.nodes_ip_range@ == union_all(nets.map_values(|n: workloads::ZNet| n.nodes_ip_range@))
    &&& z.keys@ == union_all(nets.map_values(|n: workloads::ZNet| n.keys@))
    &&& z.wg_port@ == union_all(nets.map_values(|n: workloads::ZNet| n.wg_port@))
    &&& key_views(z.mycelium_keys@) == union_all(nets.map_values(|n: workloads::ZNet| key_views(n.mycelium_keys@)))
}

/// Appends the nodes `src` to `dst`.
fn append_nodes(dst: &mut Vec<u32>, src: &Vec<u32>)
    ensures
        final(dst)@ == old(dst)@ + src@,
{
    let mut k: usize = 0;
    while k < src.len()
        invariant
            k <= src@.len(),
            dst@ == old(dst)@ + src@.take(k as int),
        decreases src.len() - k,
    {
        dst.push(src[k]);
        assert(src@.take(k + 1) =~= src@.take(k as int).push(src@[k as int]));
        k = k + 1;
    }
    assert(src@.take(src@.len() as int) =~= src@);
}

/// The parts of one network, found on several nodes, put together (see
/// [`merged_from`]).
#[verifier::loop_isolation(false)]
pub fn merge_networks(nets: Vec<workloads::ZNet>) -> (r: workloads::ZNet)
    requires
        nets@.len() > 0,
    ensures
        merged_from(r, nets@),
{
    let ghost all = nets@;
    let mut rest = nets;
    let mut z = rest.remove(0);
    proof {
        let one = all.take(1);
        assert(one[0] == z);
        assert(one.map_values(|n: workloads::ZNet| n.nodes_ip_range@).last() == z.nodes_ip_range@);
        assert(one.map_values(|n: workloads::ZNet| n.keys@).last() == z.keys@);
        assert(one.map_values(|n: workloads::ZNet| n.wg_port@).last() == z.wg_port@);
        assert(one.map_values(|n: workloads::ZNet| key_views(n.mycelium_keys@)).last() == key_views(z.mycelium_keys@));
        assert(one.drop_last() =~= Seq::<workloads::ZNet>::empty());
        assert(one.map_values(|n: workloads::ZNet| n.nodes_ip_range@).drop_last() =~= Seq::<Map<u32, String>>::empty());
        assert(one.map_values(|n: workloads::ZNet| n.keys@).drop_last() =~= Seq::<Map<u32, String>>::empty());
        assert(one.map_values(|n: workloads::ZNet| n.wg_port@).drop_last() =~= Seq::<Map<u32, i32>>::empty());
        assert(one.map_values(|n: workloads::ZNet| key_views(n.mycelium_keys@)).drop_last() =~= Seq::<Map<u32, Seq<u8>>>::empty());
        lemma_union_single(one.map_values(|n: workloads::ZNet| n.nodes_ip_range@));
        lemma_union_single(one.map_values(|n: workloads::ZNet| n.keys@));
        lemma_union_single(one.map_values(|n: workloads::ZNet| n.wg_port@));
        lemma_union_single(one.map_values(|n: workloads::ZNet| key_views(n.mycelium_keys@)));
        assert(all_nodes(one.drop_last()) == Seq::<u32>::empty());
        assert(first_range(one.drop_last()) == Seq::<char>::empty());
        assert(all_nodes(one) =~= z.nodes@);
    }
    let mut i: usize = 0;
    while i < rest.len()
        invariant
            all.len() == rest@.len() + 1,
            rest@ == all.subrange(1, all.len() as int),
            i <= rest@.len(),
            merged_from(z, all.take(i + 1)),
        decreases rest.len() - i,
    {
        let net = &rest[i];
        let ghost before = z;
        let ghost t = all.take(i + 2);
        proof {
            assert(t.drop_last() =~= all.take(i + 1));
            assert(t.last() == *net);
            assert(t[0] == all[0]);
            assert(all.take(i + 1)[0] == all[0]);
        }
        append_nodes(&mut z.nodes, &net.nodes);
        extend_strings(&mut z.nodes_ip_range, &net.nodes_ip_range);
        extend_bytes(&mut z.mycelium_keys, &net.mycelium_keys);
        extend_strings(&mut z.keys, &net.keys);
        extend_ports(&mut z.wg_port, &net.wg_port);
        if z.ip_range.unicode_len() == 0 {
            z.ip_range = net.ip_range.clone();
        }
        proof {
            assert(t.map_values(|n: workloads::ZNet| n.nodes_ip_range@).drop_last() =~= all.take(i + 1).map_values(|n: workloads::ZNet| n.nodes_ip_range@));
            assert(t.map_values(|n: workloads::ZNet| n.keys@).drop_last() =~= all.take(i + 1).map_values(|n: workloads::ZNet| n.keys@));
            assert(t.map_values(|n: workloads::ZNet| n.wg_port@).drop_last() =~= all.take(i + 1).map_values(|n: workloads::ZNet| n.wg_port@));
            assert(t.map_values(|n: workloads::ZNet| key_views(n.mycelium_keys@)).drop_last() =~= all.take(i + 1).map_values(|n: workloads::ZNet| key_views(n.mycelium_keys@)));
            lemma_key_views_union(z.mycelium_keys@, before.mycelium_keys@, net.mycelium_keys@);
        }
        i = i + 1;
    }
    assert(all.take(rest@.len() as int + 1) =~= all);
    z
}

/// The parts of one light network, found on several nodes, put together
/// (see [`light_merged_from`]).
#[verifier::loop_isolation(false)]
pub fn merge_network_lights(nets: Vec<workloads::ZNetLight>) -> (r: workloads::ZNetLight)
    requires
        nets@.len() > 0,
    ensures
        light_merged_from(r, nets@),
{
    let ghost all = nets@;
    let mut rest = nets;
    let mut z = rest.remove(0);
    proof {
        let one = all.take(1);
        assert(one[0] == z);
        assert(one.map_values(|n: workloads::ZNetLight| n.nodes_ip_range@).last() == z.nodes_ip_range@);
        assert(one.map_values(|n: workloads::ZNetLight| key_views(n.mycelium_keys@)).last() == key_views(z.mycelium_keys@));
        assert(one.drop_last() =~= Seq::<workloads::ZNetLight>::empty());
        assert(one.map_values(|n: workloads::ZNetLight| n.nodes_ip_range@).drop_last() =~= Seq::<Map<u32, String>>::empty());
        assert(one.map_values(|n: workloads::ZNetLight| key_views(n.mycelium_keys@)).drop_last() =~= Seq::<Map<u32, Seq<u8>>>::empty());
        lemma_union_single(one.map_values(|n: workloads::ZNetLight| n.nodes_ip_range@));
        lemma_union_single(one.map_values(|n: workloads::ZNetLight| key_views(n.mycelium_keys@)));
        assert(all_light_nodes(one.drop_last()) == Seq::<u32>::empty());
        assert(all_light_nodes(one) =~= z.nodes@);
    }
    let mut i: usize = 0;
    while i < rest.len()
        invariant
            all.len() == rest@.len() + 1,
            rest@ == all.subrange(1, all.len() as int),
            i <= rest@.len(),
            light_merged_from(z, all.take(i + 1)),
        decreases rest.len() - i,
    {
        let net = &rest[i];
        let ghost before = z;
        let ghost t = all.take(i + 2);
        proof {
            assert(t.drop_last() =~= all.take(i + 1));
            assert(t.last() == *net);
            assert(t[0] == all[0]);
            assert(all.take(i + 1)[0] == all[0]);
        }
        append_nodes(&mut z.nodes, &net.nodes);
        extend_strings(&mut z.nodes_ip_range, &net.nodes_ip_range);
        extend_bytes(&mut z.mycelium_keys, &net.mycelium_keys);
        proof {
            assert(t.map_values(|n: workloads::ZNetLight| n.nodes_ip_range@).drop_last() =~= all.take(i + 1).map_values(|n: workloads::ZNetLight| n.nodes_ip_range@));
            assert(t.map_values(|n: workloads::ZNetLight| key_views(n.mycelium_keys@)).drop_last() =~= all.take(i + 1).map_values(|n: workloads::ZNetLight| key_views(n.mycelium_keys@)));
            lemma_key_views_union(z.mycelium_keys@, before.mycelium_keys@, net.mycelium_keys@);
        }
        i = i + 1;
    }
    assert(all.take(rest@.len() as int + 1) =~= all);
    z
}

/// The error for a public node without a wireguard port.
pub open spec fn missing_port(node_id: u32) -> Seq<char> {
    "missing wireguard port for network public node "@ + crate::text::decimal(node_id as nat)
}

/// The port of the public node, zero when unknown.
pub open spec fn public_port(z: workloads::ZNet) -> i32 {
    if z.wg_port@.contains_key(z.public_node_id) {
        z.wg_port@[z.public_node_id]
    } else {
        0
    }
}

/// Whether the user's wireguard access is configured: asked for, the public
/// node has an endpoint, and the user's address is an IPv4 one.
pub open spec fn wants_access(z: workloads::ZNet, endpoint: Seq<char>) -> bool {
    z.add_wg_access && endpoint.len() > 0 && z.external_ip is Some && wg_ip_of(z.external_ip.unwrap()@) is Some
}

/// The network with the user's wireguard configuration filled in when it
/// is wanted (see [`wants_access`]); an error when the public node has no
/// wireguard port.
pub fn with_wg_access(z: workloads::ZNet, endpoint: &str) -> (r: Result<workloads::ZNet, GridError>)
    ensures
        !wants_access(z, endpoint@) ==> (r matches Ok(x) && x == z),
        wants_access(z, endpoint@) && public_port(z) == 0 ==> (r matches Err(e) && is_validation(e, missing_port(z.public_node_id))),
        wants_access(z, endpoint@) && public_port(z) != 0 ==> (r matches Ok(x) && x == (workloads::ZNet { access_wg_config: x.access_wg_config, ..z })
            && x.access_wg_config@ == wg_config_text(
                wg_ip_of(z.external_ip.unwrap()@).unwrap(),
                z.external_sk@,
                subnet_of(z.keys@, z.public_node_id),
                endpoint@ + seq![':'] + crate::text::signed_decimal(public_port(z) as int),
                z.ip_range@,
            )),
{
    let mut z = z;
    if !z.add_wg_access || endpoint.unicode_len() == 0 {
        return Ok(z);
    }
    let wg_ip = match &z.external_ip {
        Some(ip) => match compute_wg_ip(ip.as_str()) {
            Some(w) => w,
            None => return Ok(z),
        },
        None => return Ok(z),
    };
    let port: i32 = match z.wg_port.get(&z.public_node_id) {
        Some(p) => *p,
        None => 0,
    };
    if port == 0 {
        let mut m = String::from_str("missing wireguard port for network public node ");
        push_decimal(&mut m, z.public_node_id as u64);
        return Err(GridError::Validation(m));
    }
    let peer_key = match z.keys.get(&z.public_node_id) {
        Some(k) => k.clone(),
        None => String::new(),
    };
    let mut full_endpoint = String::from_str(endpoint);
    full_endpoint.append(":");
    crate::text::push_signed_decimal(&mut full_endpoint, port as i64);
    proof {
        reveal_strlit(":");
    }
    let config = format_wg_config(wg_ip.as_str(), z.external_sk.as_str(), peer_key.as_str(), full_endpoint.as_str(), z.ip_range.as_str());
    z.access_wg_config = config;
    Ok(z)
}

/// Deployment `d` holds a workload of type `kind` named `name`, and its
/// metadata reads.
pub open spec fn deployment_holds(d: zos::DeploymentView, cs: Map<u64, crate::subi::Contract>, kind: Seq<char>, name: Seq<char>) -> bool {
    &&& deployment_info(d, cs) is Some
    &&& exists|k: int| 0 <= k < d.workloads.len() && #[trigger] d.workloads[k].workload_type == kind && d.workloads[k].name == name
}

/// One of deployments `ds` holds a workload of type `kind` named `name`.
pub open spec fn node_holds(ds: Seq<zos::DeploymentView>, cs: Map<u64, crate::subi::Contract>, kind: Seq<char>, name: Seq<char>) -> bool {
    exists|j: int| 0 <= j < ds.len() && #[trigger] deployment_holds(ds[j], cs, kind, name)
}

/// `ids` maps exactly the indexed nodes holding a workload of type `kind`
/// named `name` to the contract of one of their deployments that holds it.
pub open spec fn holders_exact<G: NodeClientGetter>(ids: Map<u32, u64>, index: Map<u32, Vec<u64>>, pool: G, cs: Map<u64, crate::subi::Contract>, kind: Seq<char>, name: Seq<char>) -> bool {
    &&& forall|n: u32| #[trigger] ids.contains_key(n) <==> (index.contains_key(n) && node_holds(pool.node_held(n), cs, kind, name))
    &&& forall|n: u32| #[trigger] ids.contains_key(n) ==> exists|j: int| 0 <= j < pool.node_held(n).len()
        && #[trigger] pool.node_held(n)[j].contract_id == ids[n] && deployment_holds(pool.node_held(n)[j], cs, kind, name)
}

/// Network part `p` is what node `n` holds of network `name` in deployment
/// `d`: read from a network workload of that name in it (its name, node,
/// subnet and range), with the project of the deployment as solution type.
pub open spec fn network_part(p: workloads::ZNet, n: u32, d: zos::DeploymentView, cs: Map<u64, crate::subi::Contract>, name: Seq<char>) -> bool {
    &&& deployment_info(d, cs) matches Some(x) && p.solution_type@ == x.3
    &&& exists|k: int| {
        &&& 0 <= k < d.workloads.len()
        &&& #[trigger] d.workloads[k].workload_type == zos::NETWORK_TYPE@
        &&& d.workloads[k].name == name
        &&& p.name@ == name
        &&& p.nodes@ == seq![n]
        &&& p.nodes_ip_range@.dom() == set![n]
        &&& workloads::network_data_of(d.workloads[k].data) matches Some(nd) && p.nodes_ip_range@[n]@ == nd.subnet && p.ip_range@ == nd.ip_range
    }
}

/// The deployments of `ds` on node `n` that hold a workload of type `kind`
/// named `name`, in order, each with `n`.
pub open spec fn holding_pairs(n: u32, ds: Seq<zos::DeploymentView>, cs: Map<u64, crate::subi::Contract>, kind: Seq<char>, name: Seq<char>) -> Seq<(u32, zos::DeploymentView)>
    decreases ds.len(),
{
    if ds.len() == 0 {
        Seq::empty()
    } else if deployment_holds(ds.last(), cs, kind, name) {
        holding_pairs(n, ds.drop_last(), cs, kind, name).push((n, ds.last()))
    } else {
        holding_pairs(n, ds.drop_last(), cs, kind, name)
    }
}

/// The deployments that hold a workload of type `kind` named `name` on the
/// nodes of `order`, node by node and in each node's order, each with its
/// node.
pub open spec fn holders_along<G: NodeClientGetter>(order: Seq<u32>, pool: G, cs: Map<u64, crate::subi::Contract>, kind: Seq<char>, name: Seq<char>) -> Seq<(u32, zos::DeploymentView)>
    decreases order.len(),
{
    if order.len() == 0 {
        Seq::empty()
    } else {
        holders_along(order.drop_last(), pool, cs, kind, name) + holding_pairs(order.last(), pool.node_held(order.last()), cs, kind, name)
    }
}

/// `order` lists the indexed nodes: every one of them, and nothing else.
pub open spec fn covers(order: Seq<u32>, index: Map<u32, Vec<u64>>) -> bool {
    &&& forall|i: int| 0 <= i < order.len() ==> index.contains_key(#[trigger] order[i])
    &&& forall|k: u32| #[trigger] index.contains_key(k) ==> order.contains(k)
}

/// Part `i` of `parts` is what the holder `hs[i]` holds of network `name`,
/// for every holder and no more.
pub open spec fn parts_along(parts: Seq<workloads::ZNet>, hs: Seq<(u32, zos::DeploymentView)>, cs: Map<u64, crate::subi::Contract>, name: Seq<char>) -> bool {
    &&& parts.len() == hs.len()
    &&& forall|i: int| 0 <= i < parts.len() ==> #[trigger] network_part(parts[i], hs[i].0, hs[i].1, cs, name)
}

/// The node and the holding of each pair of `holding_pairs`.
proof fn lemma_holding_pairs(n: u32, ds: Seq<zos::DeploymentView>, cs: Map<u64, crate::subi::Contract>, kind: Seq<char>, name: Seq<char>)
    ensures
        forall|i: int| 0 <= i < holding_pairs(n, ds, cs, kind, name).len() ==> (#[trigger] holding_pairs(n, ds, cs, kind, name)[i]).0 == n,
        holding_pairs(n, ds, cs, kind, name).len() > 0 <==> node_holds(ds, cs, kind, name),
    decreases ds.len(),
{
    if ds.len() > 0 {
        let rest = ds.drop_last();
        lemma_holding_pairs(n, rest, cs, kind, name);
        if node_holds(rest, cs, kind, name) {
            let j = choose|j: int| 0 <= j < rest.len() && #[trigger] deployment_holds(rest[j], cs, kind, name);
            assert(deployment_holds(ds[j], cs, kind, name));
        }
        if node_holds(ds, cs, kind, name) && !deployment_holds(ds.last(), cs, kind, name) {
            let j = choose|j: int| 0 <= j < ds.len() && #[trigger] deployment_holds(ds[j], cs, kind, name);
            assert(j < rest.len());
            assert(deployment_holds(rest[j], cs, kind, name));
        }
        if deployment_holds(ds.last(), cs, kind, name) {
            assert(deployment_holds(ds[ds.len() - 1], cs, kind, name));
        }
    }
}

/// A node owns a holder along `order` exactly when it is in `order` and
/// holds the workload.
proof fn lemma_holders_along<G: NodeClientGetter>(order: Seq<u32>, pool: G, cs: Map<u64, crate::subi::Contract>, kind: Seq<char>, name: Seq<char>, n: u32)
    ensures
        (exists|i: int| 0 <= i < holders_along(order, pool, cs, kind, name).len() && #[trigger] holders_along(order, pool, cs, kind, name)[i].0 == n)
            <==> (order.contains(n) && node_holds(pool.node_held(n), cs, kind, name)),
        forall|i: int| 0 <= i < holders_along(order, pool, cs, kind, name).len() ==> order.contains(#[trigger] holders_along(order, pool, cs, kind, name)[i].0),
    decreases order.len(),
{
    if order.len() > 0 {
        let rest = order.drop_last();
        let m = order.last();
        lemma_holders_along(rest, pool, cs, kind, name, n);
        lemma_holding_pairs(m, pool.node_held(m), cs, kind, name);
        let a = holders_along(rest, pool, cs, kind, name);
        let b = holding_pairs(m, pool.node_held(m), cs, kind, name);
        let h = holders_along(order, pool, cs, kind, name);
        assert(h == a + b);
        assert forall|i: int| 0 <= i < h.len() implies order.contains(#[trigger] h[i].0) by {
            if i < a.len() {
                assert(h[i] == a[i]);
                let j = choose|j: int| 0 <= j < rest.len() && rest[j] == a[i].0;
                assert(order[j] == a[i].0);
            } else {
                assert(h[i] == b[i - a.len()]);
                assert(order[order.len() - 1] == m);
            }
        }
        if exists|i: int| 0 <= i < h.len() && #[trigger] h[i].0 == n {
            let i = choose|i: int| 0 <= i < h.len() && #[trigger] h[i].0 == n;
            if i < a.len() {
                assert(h[i] == a[i]);
                assert(a[i].0 == n);
                let j = choose|j: int| 0 <= j < rest.len() && rest[j] == n;
                assert(order[j] == n);
            } else {
                assert(h[i] == b[i - a.len()]);
                assert(b[i - a.len()].0 == m);
                assert(order[order.len() - 1] == m);
            }
        }
        if order.contains(n) && node_holds(pool.node_held(n), cs, kind, name) {
            if n == m {
                assert(b.len() > 0);
                assert(h[a.len() as int] == b[0]);
                assert(h[a.len() as int].0 == n);
            } else {
                let j = choose|j: int| 0 <= j < order.len() && order[j] == n;
                assert(j < rest.len());
                assert(rest[j] == n);
                let i = choose|i: int| 0 <= i < a.len() && #[trigger] a[i].0 == n;
                assert(h[i] == a[i]);
            }
        }
    }
}

/// The union of maps each keyed by its one owner is keyed by the owners.
proof fn lemma_union_owned<V>(ms: Seq<Map<u32, V>>, owners: Seq<u32>)
    requires
        ms.len() == owners.len(),
        forall|i: int| 0 <= i < ms.len() ==> (#[trigger] ms[i]).dom() == set![owners[i]],
    ensures
        forall|n: u32| #[trigger] union_all(ms).contains_key(n) <==> owners.contains(n),
    decreases ms.len(),
{
    if ms.len() > 0 {
        lemma_union_owned(ms.drop_last(), owners.drop_last());
        let u = union_all(ms.drop_last());
        assert(union_all(ms).dom() =~= u.dom().union(ms.last().dom()));
        assert forall|n: u32| #[trigger] union_all(ms).contains_key(n) <==> owners.contains(n) by {
            assert(ms[ms.len() - 1] == ms.last());
            assert(ms.last().dom() == set![owners.last()]);
            assert(u.contains_key(n) <==> owners.drop_last().contains(n));
            if owners.drop_last().contains(n) {
                let j = choose|j: int| 0 <= j < owners.drop_last().len() && owners.drop_last()[j] == n;
                assert(owners[j] == n);
            }
            if owners.contains(n) && n != owners.last() {
                let j = choose|j: int| 0 <= j < owners.len() && owners[j] == n;
                assert(j != owners.len() - 1);
                assert(owners.drop_last()[j] == n);
            }
            if n == owners.last() {
                assert(owners[owners.len() - 1] == n);
            }
        }
    }
}

/// The nodes of parts each on one node are those nodes, in order.
proof fn lemma_all_nodes_owned(parts: Seq<workloads::ZNet>, owners: Seq<u32>)
    requires
        parts.len() == owners.len(),
        forall|i: int| 0 <= i < parts.len() ==> (#[trigger] parts[i]).nodes@ == seq![owners[i]],
    ensures
        all_nodes(parts) == owners,
    decreases parts.len(),
{
    if parts.len() > 0 {
        lemma_all_nodes_owned(parts.drop_last(), owners.drop_last());
        assert(parts.last().nodes@ == seq![owners.last()]);
        assert(all_nodes(parts) =~= owners);
    }
}

/// What a network merged from the parts of every holder along a listing of
/// the indexed nodes holds: its nodes are the holders' nodes in that order,
/// and its subnets are keyed by exactly the indexed nodes that hold it.
pub proof fn lemma_network_holders<G: NodeClientGetter>(
    z: workloads::ZNet,
    parts: Seq<workloads::ZNet>,
    order: Seq<u32>,
    index: Map<u32, Vec<u64>>,
    pool: G,
    cs: Map<u64, crate::subi::Contract>,
    name: Seq<char>,
)
    requires
        covers(order, index),
        parts_along(parts, holders_along(order, pool, cs, zos::NETWORK_TYPE@, name), cs, name),
        parts.len() > 0,
        merged_but_ids(z, parts),
    ensures
        z.nodes@ == holders_along(order, pool, cs, zos::NETWORK_TYPE@, name).map_values(|h: (u32, zos::DeploymentView)| h.0),
        forall|n: u32| #[trigger] z.nodes_ip_range@.contains_key(n) <==> (index.contains_key(n) && node_holds(pool.node_held(n), cs, zos::NETWORK_TYPE@, name)),
        forall|n: u32| #[trigger] z.nodes@.contains(n) <==> (index.contains_key(n) && node_holds(pool.node_held(n), cs, zos::NETWORK_TYPE@, name)),
{
    let hs = holders_along(order, pool, cs, zos::NETWORK_TYPE@, name);
    let owners = hs.map_values(|h: (u32, zos::DeploymentView)| h.0);
    assert forall|i: int| 0 <= i < parts.len() implies (#[trigger] parts[i]).nodes@ == seq![owners[i]] by {
        assert(network_part(parts[i], hs[i].0, hs[i].1, cs, name));
    }
    lemma_all_nodes_owned(parts, owners);
    let ms = parts.map_values(|n: workloads::ZNet| n.nodes_ip_range@);
    assert forall|i: int| 0 <= i < ms.len() implies (#[trigger] ms[i]).dom() == set![owners[i]] by {
        assert(network_part(parts[i], hs[i].0, hs[i].1, cs, name));
    }
    lemma_union_owned(ms, owners);
    assert forall|n: u32| owners.contains(n) <==> (index.contains_key(n) && node_holds(pool.node_held(n), cs, zos::NETWORK_TYPE@, name)) by {
        lemma_holders_along(order, pool, cs, zos::NETWORK_TYPE@, name, n);
        if owners.contains(n) {
            let i = choose|i: int| 0 <= i < owners.len() && owners[i] == n;
            assert(hs[i].0 == n);
            let j = choose|j: int| 0 <= j < order.len() && order[j] == n;
            assert(index.contains_key(order[j]));
        }
        if index.contains_key(n) && node_holds(pool.node_held(n), cs, zos::NETWORK_TYPE@, name) {
            assert(order.contains(n));
            let i = choose|i: int| 0 <= i < hs.len() && #[trigger] hs[i].0 == n;
            assert(owners[i] == n);
        }
    }
}

/// Part `i` of `parts` is what the holder `hs[i]` holds of light network
/// `name`, for every holder and no more.
pub open spec fn light_parts_along(parts: Seq<workloads::ZNetLight>, hs: Seq<(u32, zos::DeploymentView)>, cs: Map<u64, crate::subi::Contract>, name: Seq<char>) -> bool {
    &&& parts.len() == hs.len()
    &&& forall|i: int| 0 <= i < parts.len() ==> #[trigger] light_part(parts[i], hs[i].0, hs[i].1, cs, name)
}

/// The nodes of light parts each on one node are those nodes, in order.
proof fn lemma_all_light_nodes_owned(parts: Seq<workloads::ZNetLight>, owners: Seq<u32>)
    requires
        parts.len() == owners.len(),
        forall|i: int| 0 <= i < parts.len() ==> (#[trigger] parts[i]).nodes@ == seq![owners[i]],
    ensures
        all_light_nodes(parts) == owners,
    decreases parts.len(),
{
    if parts.len() > 0 {
        lemma_all_light_nodes_owned(parts.drop_last(), owners.drop_last());
        assert(parts.last().nodes@ == seq![owners.last()]);
        assert(all_light_nodes(parts) =~= owners);
    }
}

/// What a light network merged from the parts of every holder along a
/// listing of the indexed nodes holds: its nodes are the holders' nodes in
/// that order, and its subnets are keyed by exactly the indexed nodes that
/// hold it.
pub proof fn lemma_light_network_holders<G: NodeClientGetter>(
    z: workloads::ZNetLight,
    parts: Seq<workloads::ZNetLight>,
    order: Seq<u32>,
    index: Map<u32, Vec<u64>>,
    pool: G,
    cs: Map<u64, crate::subi::Contract>,
    name: Seq<char>,
)
    requires
        covers(order, index),
        light_parts_along(parts, holders_along(order, pool, cs, zos::NETWORK_LIGHT_TYPE@, name), cs, name),
        parts.len() > 0,
        light_merged_from(z, parts),
    ensures
        z.nodes@ == holders_along(order, pool, cs, zos::NETWORK_LIGHT_TYPE@, name).map_values(|h: (u32, zos::DeploymentView)| h.0),
        forall|n: u32| #[trigger] z.nodes_ip_range@.contains_key(n) <==> (index.contains_key(n) && node_holds(pool.node_held(n), cs, zos::NETWORK_LIGHT_TYPE@, name)),
        forall|n: u32| #[trigger] z.nodes@.contains(n) <==> (index.contains_key(n) && node_holds(pool.node_held(n), cs, zos::NETWORK_LIGHT_TYPE@, name)),
{
    let hs = holders_along(order, pool, cs, zos::NETWORK_LIGHT_TYPE@, name);
    let owners = hs.map_values(|h: (u32, zos::DeploymentView)| h.0);
    assert forall|i: int| 0 <= i < parts.len() implies (#[trigger] parts[i]).nodes@ == seq![owners[i]] by {
        assert(light_part(parts[i], hs[i].0, hs[i].1, cs, name));
    }
    lemma_all_light_nodes_owned(parts, owners);
    let ms = parts.map_values(|n: workloads::ZNetLight| n.nodes_ip_range@);
    assert forall|i: int| 0 <= i < ms.len() implies (#[trigger] ms[i]).dom() == set![owners[i]] by {
        assert(light_part(parts[i], hs[i].0, hs[i].1, cs, name));
    }
    lemma_union_owned(ms, owners);
    assert forall|n: u32| owners.contains(n) <==> (index.contains_key(n) && node_holds(pool.node_held(n), cs, zos::NETWORK_LIGHT_TYPE@, name)) by {
        lemma_holders_along(order, pool, cs, zos::NETWORK_LIGHT_TYPE@, name, n);
        if owners.contains(n) {
            let i = choose|i: int| 0 <= i < owners.len() && owners[i] == n;
            assert(hs[i].0 == n);
            let j = choose|j: int| 0 <= j < order.len() && order[j] == n;
            assert(index.contains_key(order[j]));
        }
        if index.contains_key(n) && node_holds(pool.node_held(n), cs, zos::NETWORK_LIGHT_TYPE@, name) {
            assert(order.contains(n));
            let i = choose|i: int| 0 <= i < hs.len() && #[trigger] hs[i].0 == n;
            assert(owners[i] == n);
        }
    }
}

/// Every part in `parts` is what some indexed node holds of network `name`.
pub open spec fn parts_found<G: NodeClientGetter>(parts: Seq<workloads::ZNet>, index: Map<u32, Vec<u64>>, pool: G, cs: Map<u64, crate::subi::Contract>, name: Seq<char>) -> bool {
    forall|i: int| 0 <= i < parts.len() ==> #[trigger] part_found(parts[i], index, pool, cs, name)
}

/// Part `p` is what some indexed node holds of network `name`.
pub open spec fn part_found<G: NodeClientGetter>(p: workloads::ZNet, index: Map<u32, Vec<u64>>, pool: G, cs: Map<u64, crate::subi::Contract>, name: Seq<char>) -> bool {
    exists|n: u32, j: int| {
        &&& index.contains_key(n)
        &&& 0 <= j < pool.node_held(n).len()
        &&& #[trigger] network_part(p, n, pool.node_held(n)[j], cs, name)
    }
}

/// `z` is the parts put together as [`merged_from`] says, but for its
/// deployment ids and its wireguard configuration, which are set after.
pub open spec fn merged_but_ids(z: workloads::ZNet, nets: Seq<workloads::ZNet>) -> bool {
    let f = nets[0];
    &&& z.name == f.name
    &&& z.description == f.description
    &&& z.add_wg_access == f.add_wg_access
    &&& z.solution_type == f.solution_type
    &&& z.external_ip == f.external_ip
    &&& z.external_sk == f.external_sk
    &&& z.public_node_id == f.public_node_id
    &&& z.nodes@ == all_nodes(nets)
    &&& z.ip_range@ == first_range(nets)
    &&& z.nodes_ip_range@ == union_all(nets.map_values(|n: workloads::ZNet| n.nodes_ip_range@))
    &&& z.keys@ == union_all(nets.map_values(|n: workloads::ZNet| n.keys@))
    &&& z.wg_port@ == union_all(nets.map_values(|n: workloads::ZNet| n.wg_port@))
}

/// Light network part `p` is what node `n` holds of light network `name` in
/// deployment `d`: read from a network-light workload of that name in it
/// (its name, node and subnet), with the project of the deployment as
/// solution type.
pub open spec fn light_part(p: workloads::ZNetLight, n: u32, d: zos::DeploymentView, cs: Map<u64, crate::subi::Contract>, name: Seq<char>) -> bool {
    &&& deployment_info(d, cs) matches Some(x) && p.solution_type@ == x.3
    &&& exists|k: int| {
        &&& 0 <= k < d.workloads.len()
        &&& #[trigger] d.workloads[k].workload_type == zos::NETWORK_LIGHT_TYPE@
        &&& d.workloads[k].name == name
        &&& p.name@ == name
        &&& p.nodes@ == seq![n]
        &&& p.nodes_ip_range@.dom() == set![n]
        &&& workloads::network_light_data_of(d.workloads[k].data) matches Some(nd) && p.nodes_ip_range@[n]@ == nd.0
    }
}

/// Light part `p` is what some indexed node holds of light network `name`.
pub open spec fn light_part_found<G: NodeClientGetter>(p: workloads::ZNetLight, index: Map<u32, Vec<u64>>, pool: G, cs: Map<u64, crate::subi::Contract>, name: Seq<char>) -> bool {
    exists|n: u32, j: int| {
        &&& index.contains_key(n)
        &&& 0 <= j < pool.node_held(n).len()
        &&& #[trigger] light_part(p, n, pool.node_held(n)[j], cs, name)
    }
}

/// Every part in `parts` is what some indexed node holds of light network
/// `name`.
pub open spec fn light_parts_found<G: NodeClientGetter>(parts: Seq<workloads::ZNetLight>, index: Map<u32, Vec<u64>>, pool: G, cs: Map<u64, crate::subi::Contract>, name: Seq<char>) -> bool {
    forall|i: int| 0 <= i < parts.len() ==> #[trigger] light_part_found(parts[i], index, pool, cs, name)
}

/// The nodes of light networks, in order.
pub open spec fn all_light_nodes(nets: Seq<workloads::ZNetLight>) -> Seq<u32>
    decreases nets.len(),
{
    if nets.len() == 0 {
        Seq::empty()
    } else {
        all_light_nodes(nets.drop_last()) + nets.last().nodes@
    }
}

/// `z` is the light network put together from its parts `nets`: the first
/// part, with the nodes, subnets and mycelium keys of all parts.
pub open spec fn light_merged_from(z: workloads::ZNetLight, nets: Seq<workloads::ZNetLight>) -> bool {
    let f = nets[0];
    &&& z.name == f.name
    &&& z.description == f.description
    &&& z.solution_type == f.solution_type
    &&& z.ip_range == f.ip_range
    &&& z.public_node_id == f.public_node_id
    &&& z.nodes@ == all_light_nodes(nets)
    &&& z.nodes_ip_range@ == union_all(nets.map_values(|n: workloads::ZNetLight| n.nodes_ip_range@))
    &&& key_views(z.mycelium_keys@) == union_all(nets.map_values(|n: workloads::ZNetLight| key_views(n.mycelium_keys@)))
}

/// Parts of network `name` that `nets` hold, all named `name`.
pub open spec fn all_named(nets: Seq<workloads::ZNet>, name: Seq<char>) -> bool {
    forall|i: int| 0 <= i < nets.len() ==> #[trigger] nets[i].name@ == name
}

impl<G: NodeClientGetter, S: SubstrateExt> State<G, S> {
    /// The nodes indexed so far.
    fn indexed_nodes(&self) -> (r: Vec<u32>)
        ensures
            forall|i: int| 0 <= i < r@.len() ==> self.current_node_deployments@.contains_key(#[trigger] r@[i]),
            forall|k: u32| #[trigger] self.current_node_deployments@.contains_key(k) ==> r@.contains(k),
    {
        broadcast use vstd::std_specs::hash::group_hash_axioms;
        let mut out: Vec<u32> = Vec::new();
        let ghost v = vstd::std_specs::hash::spec_hash_map_iter(&self.current_node_deployments).remaining();
        for pair in it: self.current_node_deployments.iter()
            invariant
                it.seq() == v,
                v.len() == self.current_node_deployments@.dom().len(),
                forall|i: int| 0 <= i < v.len() ==> self.current_node_deployments@.contains_key(*v[i].0),
                forall|k: u32| #[trigger] self.current_node_deployments@.contains_key(k) ==> v.contains((&k, &self.current_node_deployments@[k])),
                out@.len() == it.index(),
                forall|i: int| 0 <= i < out@.len() ==> #[trigger] out@[i] == *v[i].0,
                forall|i: int| 0 <= i < out@.len() ==> self.current_node_deployments@.contains_key(#[trigger] out@[i]),
        {
            let (k, _) = pair;
            out.push(*k);
        }
        assert forall|k: u32| #[trigger] self.current_node_deployments@.contains_key(k) implies out@.contains(k) by {
            let j = choose|j: int| 0 <= j < v.len() && v[j] == (&k, &self.current_node_deployments@[k]);
            assert(out@[j] == k);
        }
        out
    }

    /// Reads network `name` back from every indexed node, puts its parts
    /// together (see [`merge_networks`]), configures the user's wireguard
    /// access (see [`with_wg_access`]), and records its subnets. Each node
    /// gives one part per deployment that holds a network workload of that
    /// name (the first such workload in it), with the deployment's project as
    /// solution type; the network's deployment ids name exactly the indexed
    /// nodes that hold it. What the nodes and the chain answer decides
    /// whether it succeeds.
    #[verifier::rlimit(100)]
    pub fn load_network_from_grid(&mut self, name: &str) -> (r: Result<workloads::ZNet, GridError>)
        ensures
            old(self).current_node_deployments@.dom() == Set::<u32>::empty() ==> (r matches Err(e) && is_not_found(
                e,
                "failed to get network "@ + name@,
            )),
            r matches Ok(z) ==> z.name@ == name@ && final(self).networks.state@.contains_key(name@)
                && final(self).networks.state@[name@].subnets@ == z.nodes_ip_range@,
            r matches Ok(z) ==> exists|order: Seq<u32>, parts: Seq<workloads::ZNet>| {
                &&& covers(order, old(self).current_node_deployments@)
                &&& #[trigger] parts_along(
                    parts,
                    holders_along(order, old(self).nc_pool, old(self).substrate.contracts_view(), zos::NETWORK_TYPE@, name@),
                    old(self).substrate.contracts_view(),
                    name@,
                )
                &&& parts.len() > 0
                &&& merged_but_ids(z, parts)
            },
            r matches Ok(z) ==> forall|n: u32| #[trigger] z.nodes_ip_range@.contains_key(n) <==> (old(self).current_node_deployments@.contains_key(n)
                && node_holds(old(self).nc_pool.node_held(n), old(self).substrate.contracts_view(), zos::NETWORK_TYPE@, name@)),
            r matches Ok(z) ==> forall|n: u32| #[trigger] z.nodes@.contains(n) <==> (old(self).current_node_deployments@.contains_key(n)
                && node_holds(old(self).nc_pool.node_held(n), old(self).substrate.contracts_view(), zos::NETWORK_TYPE@, name@)),
            (forall|n: u32| #[trigger] old(self).current_node_deployments@.contains_key(n) ==> !node_holds(
                old(self).nc_pool.node_held(n),
                old(self).substrate.contracts_view(),
                zos::NETWORK_TYPE@,
                name@,
            )) ==> r is Err,
            r matches Ok(z) ==> holders_exact(
                z.node_deployment_id@,
                old(self).current_node_deployments@,
                old(self).nc_pool,
                old(self).substrate.contracts_view(),
                zos::NETWORK_TYPE@,
                name@,
            ),
            r is Err ==> final(self).networks.state@ == old(self).networks.state@,
            final(self).current_node_deployments@ == old(self).current_node_deployments@,
    {
        let nodes = self.indexed_nodes();
        if nodes.len() == 0 {
            return Err(GridError::NotFound(String::from_str("failed to get network ").concat(name)));
        }
        let ghost k0 = nodes@[0];
        let ghost index = old(self).current_node_deployments@;
        let ghost pool = old(self).nc_pool;
        let ghost cs = old(self).substrate.contracts_view();
        let ghost kind = zos::NETWORK_TYPE@;
        assert(old(self).current_node_deployments@.dom().contains(k0));
        let mut nets: Vec<workloads::ZNet> = Vec::new();
        let mut node_deployments: HashMap<u32, u64> = HashMap::new();
        let mut public_node_endpoint = String::new();
        let mut n: usize = 0;
        while n < nodes.len()
            invariant
                n <= nodes@.len(),
                kind == zos::NETWORK_TYPE@,
                forall|i: int| 0 <= i < nodes@.len() ==> index.contains_key(#[trigger] nodes@[i]),
                all_named(nets@, name@),
                parts_found(nets@, index, pool, cs, name@),
                forall|m: u32| #[trigger] self.nc_pool.node_held(m) == pool.node_held(m),
                self.substrate == old(self).substrate,
                cs == self.substrate.contracts_view(),
                self.networks.state@ == old(self).networks.state@,
                self.current_node_deployments@ == old(self).current_node_deployments@,
                index == old(self).current_node_deployments@,
                old(self).current_node_deployments@.dom().contains(k0),
                forall|m: u32| #[trigger] node_deployments@.contains_key(m) ==> index.contains_key(m) && exists|j: int| 0 <= j < pool.node_held(m).len()
                    && #[trigger] pool.node_held(m)[j].contract_id == node_deployments@[m] && deployment_holds(pool.node_held(m)[j], cs, kind, name@),
                forall|i: int| 0 <= i < n ==> (node_holds(pool.node_held(#[trigger] nodes@[i]), cs, kind, name@) ==> node_deployments@.contains_key(nodes@[i])),
                parts_along(nets@, holders_along(nodes@.take(n as int), pool, cs, kind, name@), cs, name@),
            decreases nodes.len() - n,
        {
            let node_id = nodes[n];
            let client = self.nc_pool.get_node_client(&self.substrate, node_id)?;
            let deployments = client.deployment_list()?;
            let ghost ds = pool.node_held(node_id);
            let ghost ids_before = node_deployments@;
            let ghost h0 = holders_along(nodes@.take(n as int), pool, cs, kind, name@);
            proof {
                assert(holding_pairs(node_id, ds.take(0), cs, kind, name@) =~= Seq::<(u32, zos::DeploymentView)>::empty());
                assert(h0 + holding_pairs(node_id, ds.take(0), cs, kind, name@) =~= h0);
            }
            let mut d: usize = 0;
            while d < deployments.len()
                invariant
                    d <= deployments@.len(),
                    kind == zos::NETWORK_TYPE@,
                    deployment_views(deployments@) == ds,
                    ds == pool.node_held(node_id),
                    index.contains_key(node_id),
                    all_named(nets@, name@),
                    parts_found(nets@, index, pool, cs, name@),
                    self.substrate == old(self).substrate,
                    cs == self.substrate.contracts_view(),
                    self.networks.state@ == old(self).networks.state@,
                    self.current_node_deployments@ == old(self).current_node_deployments@,
                    index == old(self).current_node_deployments@,
                    old(self).current_node_deployments@.dom().contains(k0),
                    forall|m: u32| #[trigger] node_deployments@.contains_key(m) ==> index.contains_key(m) && exists|j: int| 0 <= j < pool.node_held(m).len()
                        && #[trigger] pool.node_held(m)[j].contract_id == node_deployments@[m] && deployment_holds(pool.node_held(m)[j], cs, kind, name@),
                    forall|m: u32| #[trigger] ids_before.contains_key(m) ==> node_deployments@.contains_key(m),
                    forall|j: int| 0 <= j < d ==> (deployment_holds(#[trigger] ds[j], cs, kind, name@) ==> node_deployments@.contains_key(node_id)),
                    h0 == holders_along(nodes@.take(n as int), pool, cs, kind, name@),
                    parts_along(nets@, h0 + holding_pairs(node_id, ds.take(d as int), cs, kind, name@), cs, name@),
                decreases deployments.len() - d,
            {
                let deployment = &deployments[d];
                assert(ds[d as int] == deployment@);
                let meta = resolve_metadata(&self.substrate, deployment)?;
                let data = workloads::parse_deployment_data(meta.as_str())?;
                assert(deployment_info(deployment@, cs) matches Some(x) && x.3 == data.project_name@);
                let mut w: usize = 0;
                while w < deployment.workloads.len()
                    invariant
                        kind == zos::NETWORK_TYPE@,
                        w <= deployment.workloads@.len(),
                        forall|q: int| 0 <= q < w ==> !((#[trigger] deployment@.workloads[q]).workload_type == kind && deployment@.workloads[q].name == name@),
                    ensures
                        w <= deployment.workloads@.len(),
                        forall|q: int| 0 <= q < w ==> !((#[trigger] deployment@.workloads[q]).workload_type == kind && deployment@.workloads[q].name == name@),
                        w < deployment.workloads@.len() ==> deployment@.workloads[w as int].workload_type == kind && deployment@.workloads[w as int].name == name@,
                    decreases deployment.workloads.len() - w,
                {
                    let workload = &deployment.workloads[w];
                    assert(deployment@.workloads[w as int] == workload@);
                    if str_eq(workload.workload_type.as_str(), zos::NETWORK_TYPE) && str_eq(workload.name.as_str(), name) {
                        break;
                    }
                    w = w + 1;
                }
                if w < deployment.workloads.len() {
                    let workload = &deployment.workloads[w];
                    assert(deployment@.workloads[w as int] == workload@);
                    let mut network = workloads::new_network_from_workload(workload, node_id)?;
                    network.solution_type = data.project_name.clone();
                    let is_public = network.public_node_id == node_id;
                    proof {
                        assert(deployment_holds(ds[d as int], cs, kind, name@));
                        assert(network_part(network, node_id, pool.node_held(node_id)[d as int], cs, name@));
                        assert(part_found(network, index, pool, cs, name@));
                    }
                    let ghost before = nets@;
                    let ghost hp = holding_pairs(node_id, ds.take(d as int), cs, kind, name@);
                    nets.push(network);
                    proof {
                        assert(ds.take(d as int + 1).drop_last() =~= ds.take(d as int));
                        assert(ds.take(d as int + 1).last() == ds[d as int]);
                        assert(holding_pairs(node_id, ds.take(d as int + 1), cs, kind, name@) == hp.push((node_id, ds[d as int])));
                        assert(h0 + hp.push((node_id, ds[d as int])) =~= (h0 + hp).push((node_id, ds[d as int])));
                        let hs = h0 + holding_pairs(node_id, ds.take(d as int + 1), cs, kind, name@);
                        assert forall|i: int| 0 <= i < nets@.len() implies #[trigger] network_part(nets@[i], hs[i].0, hs[i].1, cs, name@) by {
                            if i < before.len() {
                                assert(nets@[i] == before[i]);
                                assert(hs[i] == (h0 + hp)[i]);
                            } else {
                                assert(hs[i] == (node_id, ds[d as int]));
                            }
                        }
                        assert forall|i: int| 0 <= i < nets@.len() implies #[trigger] part_found(nets@[i], index, pool, cs, name@) by {
                            if i < before.len() {
                                assert(nets@[i] == before[i]);
                            }
                        }
                        assert forall|i: int| 0 <= i < nets@.len() implies #[trigger] nets@[i].name@ == name@ by {
                            if i < before.len() {
                                assert(nets@[i] == before[i]);
                            }
                        }
                    }
                    node_deployments.insert(node_id, deployment.contract_id);
                    if is_public {
                        public_node_endpoint = client.get_node_endpoint()?;
                    }
                } else {
                    proof {
                        assert(ds.take(d as int + 1).drop_last() =~= ds.take(d as int));
                        assert(ds.take(d as int + 1).last() == ds[d as int]);
                        if deployment_holds(ds[d as int], cs, kind, name@) {
                            let k = choose|k: int| 0 <= k < ds[d as int].workloads.len() && #[trigger] ds[d as int].workloads[k].workload_type == kind && ds[d as int].workloads[k].name == name@;
                            assert(!((deployment@.workloads[k]).workload_type == kind && deployment@.workloads[k].name == name@));
                        }
                    }
                }
                d = d + 1;
            }
            proof {
                if node_holds(ds, cs, kind, name@) {
                    let j = choose|j: int| 0 <= j < ds.len() && #[trigger] deployment_holds(ds[j], cs, kind, name@);
                    assert(deployment_holds(ds[j], cs, kind, name@));
                }
                assert(ds.take(ds.len() as int) =~= ds);
                assert(nodes@.take(n as int + 1).drop_last() =~= nodes@.take(n as int));
                assert(nodes@.take(n as int + 1).last() == node_id);
                assert(holders_along(nodes@.take(n as int + 1), pool, cs, kind, name@) == h0 + holding_pairs(node_id, ds, cs, kind, name@));
            }
            n = n + 1;
        }
        proof {
            assert(nodes@.take(nodes@.len() as int) =~= nodes@);
            assert(covers(nodes@, index));
            let hs = holders_along(nodes@, pool, cs, kind, name@);
            if hs.len() > 0 {
                lemma_holders_along(nodes@, pool, cs, kind, name@, hs[0].0);
                assert(hs[0].0 == hs[0].0);
                let j = choose|j: int| 0 <= j < nodes@.len() && nodes@[j] == hs[0].0;
                assert(index.contains_key(nodes@[j]));
            }
        }
        if nets.len() == 0 {
            proof {
                assert(old(self).current_node_deployments@.contains_key(k0));
            }
            return Err(GridError::NotFound(String::from_str("failed to get network ").concat(name)));
        }
        let ghost parts = nets@;
        let mut z = merge_networks(nets);
        assert(parts[0].name@ == name@);
        z.node_deployment_id = node_deployments;
        let ghost z1 = z;
        let z = with_wg_access(z, public_node_endpoint.as_str())?;
        proof {
            assert(merged_but_ids(z, parts));
            lemma_network_holders(z, parts, nodes@, index, pool, cs, name@);
            assert(parts_along(parts, holders_along(nodes@, pool, cs, kind, name@), cs, name@));
            assert forall|m: u32| #[trigger] z.node_deployment_id@.contains_key(m) <==> (index.contains_key(m) && node_holds(pool.node_held(m), cs, kind, name@)) by {
                if index.contains_key(m) && node_holds(pool.node_held(m), cs, kind, name@) {
                    let i = choose|i: int| 0 <= i < nodes@.len() && nodes@[i] == m;
                    assert(nodes@[i] == m);
                }
            }
        }
        let subnets = z.nodes_ip_range.clone();
        self.networks.update_network_subnets(name, subnets);
        Ok(z)
    }

    /// Loads the network of a deployment read back from `node_id` (a full
    /// network, or else a light one) and sets the deployment's IP range to
    /// the node's subnet in it. A deployment without a network is left as it
    /// is.
    pub fn apply_deployment_network(&mut self, output: &mut workloads::Deployment, node_id: u32) -> (r: Result<(), GridError>)
        ensures
            old(output).network_name@.len() == 0 ==> (r is Ok && *final(output) == *old(output)
                && final(self).networks.state@ == old(self).networks.state@),
            old(output).network_name@.len() > 0 && r is Ok ==> {
                &&& final(output).ip_range@ == subnet_of(
                    subnets_of(final(self).networks.state@, old(output).network_name@),
                    node_id,
                )
                &&& *final(output) == (workloads::Deployment { ip_range: final(output).ip_range, ..*old(output) })
            },
            r is Err ==> *final(output) == *old(output),
            final(self).current_node_deployments@ == old(self).current_node_deployments@,
    {
        if output.network_name.unicode_len() == 0 {
            return Ok(());
        }
        let name = output.network_name.clone();
        match self.load_network_from_grid(name.as_str()) {
            Ok(_) => {},
            Err(_) => match self.load_network_light_from_grid(name.as_str()) {
                Ok(_) => {},
                Err(e) => return Err(e),
            },
        }
        output.ip_range = self.networks.get_network(name.as_str()).get_node_subnet(node_id);
        Ok(())
    }

    /// Reads light network `name` back from every indexed node, puts its
    /// parts together (see [`merge_network_lights`]) and records its
    /// subnets. Each node gives one part per deployment that holds a
    /// network-light workload of that name, with the deployment's project as
    /// solution type; the network's deployment ids name exactly the indexed
    /// nodes that hold it. What the nodes and the chain answer decides
    /// whether it succeeds.
    #[verifier::rlimit(100)]
    #[verifier::spinoff_prover]
    pub fn load_network_light_from_grid(&mut self, name: &str) -> (r: Result<workloads::ZNetLight, GridError>)
        ensures
            old(self).current_node_deployments@.dom() == Set::<u32>::empty() ==> (r matches Err(e) && is_not_found(
                e,
                "failed to get network-light "@ + name@,
            )),
            r matches Ok(z) ==> z.name@ == name@ && final(self).networks.state@.contains_key(name@)
                && final(self).networks.state@[name@].subnets@ == z.nodes_ip_range@,
            r matches Ok(z) ==> exists|order: Seq<u32>, parts: Seq<workloads::ZNetLight>| {
                &&& covers(order, old(self).current_node_deployments@)
                &&& #[trigger] light_parts_along(
                    parts,
                    holders_along(order, old(self).nc_pool, old(self).substrate.contracts_view(), zos::NETWORK_LIGHT_TYPE@, name@),
                    old(self).substrate.contracts_view(),
                    name@,
                )
                &&& parts.len() > 0
                &&& light_merged_from(z, parts)
            },
            r matches Ok(z) ==> forall|n: u32| #[trigger] z.nodes_ip_range@.contains_key(n) <==> (old(self).current_node_deployments@.contains_key(n)
                && node_holds(old(self).nc_pool.node_held(n), old(self).substrate.contracts_view(), zos::NETWORK_LIGHT_TYPE@, name@)),
            r matches Ok(z) ==> forall|n: u32| #[trigger] z.nodes@.contains(n) <==> (old(self).current_node_deployments@.contains_key(n)
                && node_holds(old(self).nc_pool.node_held(n), old(self).substrate.contracts_view(), zos::NETWORK_LIGHT_TYPE@, name@)),
            (forall|n: u32| #[trigger] old(self).current_node_deployments@.contains_key(n) ==> !node_holds(
                old(self).nc_pool.node_held(n),
                old(self).substrate.contracts_view(),
                zos::NETWORK_LIGHT_TYPE@,
                name@,
            )) ==> r is Err,
            r matches Ok(z) ==> holders_exact(
                z.node_deployment_id@,
                old(self).current_node_deployments@,
                old(self).nc_pool,
                old(self).substrate.contracts_view(),
                zos::NETWORK_LIGHT_TYPE@,
                name@,
            ),
            r is Err ==> final(self).networks.state@ == old(self).networks.state@,
            final(self).current_node_deployments@ == old(self).current_node_deployments@,
    {
        let nodes = self.indexed_nodes();
        if nodes.len() == 0 {
            return Err(GridError::NotFound(String::from_str("failed to get network-light ").concat(name)));
        }
        let ghost k0 = nodes@[0];
        let ghost index = old(self).current_node_deployments@;
        let ghost pool = old(self).nc_pool;
        let ghost cs = old(self).substrate.contracts_view();
        let ghost kind = zos::NETWORK_LIGHT_TYPE@;
        assert(old(self).current_node_deployments@.dom().contains(k0));
        let mut nets: Vec<workloads::ZNetLight> = Vec::new();
        let mut node_deployments: HashMap<u32, u64> = HashMap::new();
        let mut n: usize = 0;
        while n < nodes.len()
            invariant
                n <= nodes@.len(),
                kind == zos::NETWORK_LIGHT_TYPE@,
                forall|i: int| 0 <= i < nodes@.len() ==> index.contains_key(#[trigger] nodes@[i]),
                forall|i: int| 0 <= i < nets@.len() ==> #[trigger] nets@[i].name@ == name@,
                forall|i: int| 0 <= i < nets@.len() ==> #[trigger] light_part_found(nets@[i], index, pool, cs, name@),
                forall|m: u32| #[trigger] self.nc_pool.node_held(m) == pool.node_held(m),
                self.substrate == old(self).substrate,
                cs == self.substrate.contracts_view(),
                self.networks.state@ == old(self).networks.state@,
                self.current_node_deployments@ == old(self).current_node_deployments@,
                index == old(self).current_node_deployments@,
                old(self).current_node_deployments@.dom().contains(k0),
                forall|m: u32| #[trigger] node_deployments@.contains_key(m) ==> index.contains_key(m) && exists|j: int| 0 <= j < pool.node_held(m).len()
                    && #[trigger] pool.node_held(m)[j].contract_id == node_deployments@[m] && deployment_holds(pool.node_held(m)[j], cs, kind, name@),
                forall|i: int| 0 <= i < n ==> (node_holds(pool.node_held(#[trigger] nodes@[i]), cs, kind, name@) ==> node_deployments@.contains_key(nodes@[i])),
                light_parts_along(nets@, holders_along(nodes@.take(n as int), pool, cs, kind, name@), cs, name@),
            decreases nodes.len() - n,
        {
            let node_id = nodes[n];
            let client = self.nc_pool.get_node_client(&self.substrate, node_id)?;
            let deployments = client.deployment_list()?;
            let ghost ds = pool.node_held(node_id);
            let ghost ids_before = node_deployments@;
            let ghost h0 = holders_along(nodes@.take(n as int), pool, cs, kind, name@);
            proof {
                assert(holding_pairs(node_id, ds.take(0), cs, kind, name@) =~= Seq::<(u32, zos::DeploymentView)>::empty());
                assert(h0 + holding_pairs(node_id, ds.take(0), cs, kind, name@) =~= h0);
            }
            let mut d: usize = 0;
            while d < deployments.len()
                invariant
                    d <= deployments@.len(),
                    kind == zos::NETWORK_LIGHT_TYPE@,
                    deployment_views(deployments@) == ds,
                    ds == pool.node_held(node_id),
                    index.contains_key(node_id),
                    forall|i: int| 0 <= i < nets@.len() ==> #[trigger] nets@[i].name@ == name@,
                    forall|i: int| 0 <= i < nets@.len() ==> #[trigger] light_part_found(nets@[i], index, pool, cs, name@),
                    self.substrate == old(self).substrate,
                    cs == self.substrate.contracts_view(),
                    self.networks.state@ == old(self).networks.state@,
                    self.current_node_deployments@ == old(self).current_node_deployments@,
                    index == old(self).current_node_deployments@,
                    old(self).current_node_deployments@.dom().contains(k0),
                    forall|m: u32| #[trigger] node_deployments@.contains_key(m) ==> index.contains_key(m) && exists|j: int| 0 <= j < pool.node_held(m).len()
                        && #[trigger] pool.node_held(m)[j].contract_id == node_deployments@[m] && deployment_holds(pool.node_held(m)[j], cs, kind, name@),
                    forall|m: u32| #[trigger] ids_before.contains_key(m) ==> node_deployments@.contains_key(m),
                    forall|j: int| 0 <= j < d ==> (deployment_holds(#[trigger] ds[j], cs, kind, name@) ==> node_deployments@.contains_key(node_id)),
                    h0 == holders_along(nodes@.take(n as int), pool, cs, kind, name@),
                    light_parts_along(nets@, h0 + holding_pairs(node_id, ds.take(d as int), cs, kind, name@), cs, name@),
                decreases deployments.len() - d,
            {
                let deployment = &deployments[d];
                assert(ds[d as int] == deployment@);
                let meta = resolve_metadata(&self.substrate, deployment)?;
                let data = workloads::parse_deployment_data(meta.as_str())?;
                assert(deployment_info(deployment@, cs) matches Some(x) && x.3 == data.project_name@);
                let mut w: usize = 0;
                while w < deployment.workloads.len()
                    invariant
                        kind == zos::NETWORK_LIGHT_TYPE@,
                        w <= deployment.workloads@.len(),
                        forall|q: int| 0 <= q < w ==> !((#[trigger] deployment@.workloads[q]).workload_type == kind && deployment@.workloads[q].name == name@),
                    ensures
                        w <= deployment.workloads@.len(),
                        forall|q: int| 0 <= q < w ==> !((#[trigger] deployment@.workloads[q]).workload_type == kind && deployment@.workloads[q].name == name@),
                        w < deployment.workloads@.len() ==> deployment@.workloads[w as int].workload_type == kind && deployment@.workloads[w as int].name == name@,
                    decreases deployment.workloads.len() - w,
                {
                    let workload = &deployment.workloads[w];
                    assert(deployment@.workloads[w as int] == workload@);
                    if str_eq(workload.workload_type.as_str(), zos::NETWORK_LIGHT_TYPE) && str_eq(workload.name.as_str(), name) {
                        break;
                    }
                    w = w + 1;
                }
                if w < deployment.workloads.len() {
                    let workload = &deployment.workloads[w];
                    assert(deployment@.workloads[w as int] == workload@);
                    let mut network = workloads::new_network_light_from_workload(workload, node_id)?;
                    network.solution_type = data.project_name.clone();
                    proof {
                        assert(deployment_holds(ds[d as int], cs, kind, name@));
                        assert(light_part(network, node_id, pool.node_held(node_id)[d as int], cs, name@));
                        assert(light_part_found(network, index, pool, cs, name@));
                    }
                    let ghost before = nets@;
                    let ghost hp = holding_pairs(node_id, ds.take(d as int), cs, kind, name@);
                    nets.push(network);
                    proof {
                        assert(ds.take(d as int + 1).drop_last() =~= ds.take(d as int));
                        assert(ds.take(d as int + 1).last() == ds[d as int]);
                        assert(holding_pairs(node_id, ds.take(d as int + 1), cs, kind, name@) == hp.push((node_id, ds[d as int])));
                        assert(h0 + hp.push((node_id, ds[d as int])) =~= (h0 + hp).push((node_id, ds[d as int])));
                        let hs = h0 + holding_pairs(node_id, ds.take(d as int + 1), cs, kind, name@);
                        assert forall|i: int| 0 <= i < nets@.len() implies #[trigger] light_part(nets@[i], hs[i].0, hs[i].1, cs, name@) by {
                            if i < before.len() {
                                assert(nets@[i] == before[i]);
                                assert(hs[i] == (h0 + hp)[i]);
                            } else {
                                assert(hs[i] == (node_id, ds[d as int]));
                            }
                        }
                        assert forall|i: int| 0 <= i < nets@.len() implies #[trigger] light_part_found(nets@[i], index, pool, cs, name@) by {
                            if i < before.len() {
                                assert(nets@[i] == before[i]);
                            }
                        }
                        assert forall|i: int| 0 <= i < nets@.len() implies #[trigger] nets@[i].name@ == name@ by {
                            if i < before.len() {
                                assert(nets@[i] == before[i]);
                            }
                        }
                    }
                    node_deployments.insert(node_id, deployment.contract_id);
                } else {
                    proof {
                        assert(ds.take(d as int + 1).drop_last() =~= ds.take(d as int));
                        assert(ds.take(d as int + 1).last() == ds[d as int]);
                        if deployment_holds(ds[d as int], cs, kind, name@) {
                            let k = choose|k: int| 0 <= k < ds[d as int].workloads.len() && #[trigger] ds[d as int].workloads[k].workload_type == kind && ds[d as int].workloads[k].name == name@;
                            assert(!((deployment@.workloads[k]).workload_type == kind && deployment@.workloads[k].name == name@));
                        }
                    }
                }
                d = d + 1;
            }
            proof {
                if node_holds(ds, cs, kind, name@) {
                    let j = choose|j: int| 0 <= j < ds.len() && #[trigger] deployment_holds(ds[j], cs, kind, name@);
                    assert(deployment_holds(ds[j], cs, kind, name@));
                }
                assert(ds.take(ds.len() as int) =~= ds);
                assert(nodes@.take(n as int + 1).drop_last() =~= nodes@.take(n as int));
                assert(nodes@.take(n as int + 1).last() == node_id);
                assert(holders_along(nodes@.take(n as int + 1), pool, cs, kind, name@) == h0 + holding_pairs(node_id, ds, cs, kind, name@));
            }
            n = n + 1;
        }
        proof {
            assert(nodes@.take(nodes@.len() as int) =~= nodes@);
            assert(covers(nodes@, index));
            let hs = holders_along(nodes@, pool, cs, kind, name@);
            if hs.len() > 0 {
                lemma_holders_along(nodes@, pool, cs, kind, name@, hs[0].0);
                let j = choose|j: int| 0 <= j < nodes@.len() && nodes@[j] == hs[0].0;
                assert(index.contains_key(nodes@[j]));
            }
        }
        if nets.len() == 0 {
            proof {
                assert(old(self).current_node_deployments@.contains_key(k0));
            }
            return Err(GridError::NotFound(String::from_str("failed to get network-light ").concat(name)));
        }
        let ghost parts = nets@;
        let mut z = merge_network_lights(nets);
        assert(parts[0].name@ == name@);
        z.node_deployment_id = node_deployments;
        proof {
            assert(light_merged_from(z, parts));
            lemma_light_network_holders(z, parts, nodes@, index, pool, cs, name@);
            assert(light_parts_along(parts, holders_along(nodes@, pool, cs, kind, name@), cs, name@));
            assert(light_parts_found(parts, index, pool, cs, name@));
            assert(light_parts_found(parts, old(self).current_node_deployments@, old(self).nc_pool, old(self).substrate.contracts_view(), name@));
            assert(parts.len() > 0);
            assert forall|m: u32| #[trigger] z.node_deployment_id@.contains_key(m) <==> (index.contains_key(m) && node_holds(pool.node_held(m), cs, kind, name@)) by {
                if index.contains_key(m) && node_holds(pool.node_held(m), cs, kind, name@) {
                    let i = choose|i: int| 0 <= i < nodes@.len() && nodes@[i] == m;
                    assert(nodes@[i] == m);
                }
            }
        }
        let subnets = z.nodes_ip_range.clone();
        self.networks.update_network_subnets(name, subnets);
        let out: Result<workloads::ZNetLight, GridError> = Ok(z);
        assert(out matches Ok(x) && light_merged_from(x, parts));
        out
    }
}

} // verus!
