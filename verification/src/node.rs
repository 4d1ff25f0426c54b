//! The node operations the SDK uses, and in-memory nodes.

use vstd::prelude::*;

use crate::error::{is_not_found, is_validation, GridError};
use crate::subi::{numbered, SubstrateExt};
use crate::zos;
use crate::zos::{workload_views, DeploymentView};

verus! {

/// The operations of one node. Implementations decide whether each call
/// succeeds; what a successful call does to the deployments the node holds
/// is stated on each method. The provided methods answer with an empty
/// endpoint and "up".
pub trait NodeClient {
    /// The deployments the node holds, as this client sees them.
    spec fn held(&self) -> Seq<DeploymentView>;

    /// What the node holds, when it answers.
    fn deployment_list(&self) -> (r: Result<Vec<zos::Deployment>, GridError>)
        ensures
            r matches Ok(v) ==> deployment_views(v@) == self.held(),
    ;

    /// The deployment under `contract_id`, when the node answers with one.
    fn deployment_get(&self, contract_id: u64) -> (r: Result<zos::Deployment, GridError>)
        ensures
            r matches Ok(d) ==> (position_of(self.held(), contract_id) matches Some(i) && d@ == self.held()[i]),
    ;

    /// Stores a deployment under its contract id, when it succeeds.
    fn deployment_put(&mut self, deployment: zos::Deployment) -> (r: Result<(), GridError>)
        ensures
            r is Ok ==> final(self).held() == stored(old(self).held(), deployment@),
            r is Err ==> final(self).held() == old(self).held(),
    ;

    /// Drops the deployment under `contract_id`, when it succeeds.
    fn deployment_delete(&mut self, contract_id: u64) -> (r: Result<(), GridError>)
        ensures
            r is Ok ==> final(self).held() == without(old(self).held(), contract_id),
            r is Err ==> final(self).held() == old(self).held(),
    ;

    fn node_id(&self) -> u32;

    /// The public endpoint of the node; empty by default.
    fn get_node_endpoint(&self) -> (r: Result<String, GridError>)
        default_ensures
            r matches Ok(e) && e@.len() == 0,
    {
        Ok(String::new())
    }

    /// Whether the node answers; by default it does.
    fn is_node_up(&self) -> (r: Result<(), GridError>)
        default_ensures
            r is Ok,
    {
        Ok(())
    }
}

/// Hands out the client of a node.
pub trait NodeClientGetter {
    type Client: NodeClient;

    /// What node `node_id` holds, as the getter's client of it sees it.
    spec fn node_held(&self, node_id: u32) -> Seq<DeploymentView>;

    /// The client of `node_id`, when there is one: it sees what the getter
    /// records for that node, and what it holds afterwards is what the getter
    /// records; no other node changes.
    fn get_node_client<S: SubstrateExt>(&mut self, substrate: &S, node_id: u32) -> (r: Result<&mut Self::Client, GridError>)
        ensures
            r matches Ok(c) ==> {
                &&& c.held() == old(self).node_held(node_id)
                &&& final(self).node_held(node_id) == final(c).held()
                &&& forall|n: u32| n != node_id ==> #[trigger] final(self).node_held(n) == old(self).node_held(n)
            },
            r is Err ==> forall|n: u32| #[trigger] final(self).node_held(n) == old(self).node_held(n),
    ;
}

/// The views of deployments.
pub open spec fn deployment_views(ds: Seq<zos::Deployment>) -> Seq<DeploymentView> {
    ds.map_values(|d: zos::Deployment| d@)
}

/// The position of the deployment with `contract_id`, if any.
pub open spec fn position_of(ds: Seq<DeploymentView>, contract_id: u64) -> Option<int> {
    if exists|i: int| 0 <= i < ds.len() && #[trigger] ds[i].contract_id == contract_id {
        Some(choose|i: int| 0 <= i < ds.len() && #[trigger] ds[i].contract_id == contract_id)
    } else {
        None
    }
}

/// No two deployments share a contract id.
pub open spec fn unique_contracts(ds: Seq<DeploymentView>) -> bool {
    forall|i: int, j: int| 0 <= i < ds.len() && 0 <= j < ds.len() && i != j ==> #[trigger] ds[i].contract_id != #[trigger] ds[j].contract_id
}

/// `d` stored under its contract id: replacing the deployment with that id,
/// else added at the end.
pub open spec fn stored(ds: Seq<DeploymentView>, d: DeploymentView) -> Seq<DeploymentView> {
    match position_of(ds, d.contract_id) {
        Some(i) => ds.update(i, d),
        None => ds.push(d),
    }
}

/// `ds` without the deployment with `contract_id`.
pub open spec fn without(ds: Seq<DeploymentView>, contract_id: u64) -> Seq<DeploymentView> {
    match position_of(ds, contract_id) {
        Some(i) => ds.remove(i),
        None => ds,
    }
}

/// A read after a store gives back what was stored, and storing keeps the
/// contract ids unique.
pub proof fn law_read_after_store(ds: Seq<DeploymentView>, d: DeploymentView)
    requires
        unique_contracts(ds),
    ensures
        position_of(stored(ds, d), d.contract_id) matches Some(i) && stored(ds, d)[i] == d,
        unique_contracts(stored(ds, d)),
{
    let s = stored(ds, d);
    match position_of(ds, d.contract_id) {
        Some(i) => {
            assert(ds[i].contract_id == d.contract_id);
            assert(s[i].contract_id == d.contract_id);
            let p = choose|k: int| 0 <= k < s.len() && #[trigger] s[k].contract_id == d.contract_id;
            if p != i {
                assert(ds[p].contract_id != ds[i].contract_id);
            }
            assert forall|a: int, b: int| 0 <= a < s.len() && 0 <= b < s.len() && a != b implies #[trigger] s[a].contract_id != #[trigger] s[b].contract_id by {
                if a != i && b != i {
                    assert(ds[a].contract_id != ds[b].contract_id);
                } else if a == i {
                    assert(ds[b].contract_id != ds[i].contract_id);
                } else {
                    assert(ds[a].contract_id != ds[i].contract_id);
                }
            }
        },
        None => {
            let n = ds.len() as int;
            assert(s[n].contract_id == d.contract_id);
            let p = choose|k: int| 0 <= k < s.len() && #[trigger] s[k].contract_id == d.contract_id;
            if p < n {
                assert(ds[p].contract_id == d.contract_id);
            }
            assert forall|a: int, b: int| 0 <= a < s.len() && 0 <= b < s.len() && a != b implies #[trigger] s[a].contract_id != #[trigger] s[b].contract_id by {
                if a < n && b < n {
                    assert(ds[a].contract_id != ds[b].contract_id);
                } else if a == n {
                    assert(ds[b].contract_id != d.contract_id);
                } else {
                    assert(ds[a].contract_id != d.contract_id);
                }
            }
        },
    }
}

/// Storing a deployment leaves what is read under other contract ids as it
/// was.
pub proof fn law_store_keeps_others(ds: Seq<DeploymentView>, d: DeploymentView, other: u64)
    requires
        unique_contracts(ds),
        other != d.contract_id,
    ensures
        match position_of(ds, other) {
            Some(i) => position_of(stored(ds, d), other) matches Some(j) && stored(ds, d)[j] == ds[i],
            None => position_of(stored(ds, d), other) is None,
        },
{
    let s = stored(ds, d);
    law_read_after_store(ds, d);
    match position_of(ds, other) {
        Some(i) => {
            assert(ds[i].contract_id == other);
            let n = s.len();
            assert(i < ds.len());
            match position_of(ds, d.contract_id) {
                Some(q) => {
                    assert(ds[q].contract_id == d.contract_id);
                    assert(i != q);
                    assert(s[i] == ds[i]);
                },
                None => {
                    assert(s[i] == ds[i]);
                },
            }
            assert(s[i].contract_id == other);
            let j = choose|k: int| 0 <= k < s.len() && #[trigger] s[k].contract_id == other;
            if j != i {
                assert(s[j].contract_id != s[i].contract_id);
            }
        },
        None => {
            if exists|k: int| 0 <= k < s.len() && #[trigger] s[k].contract_id == other {
                let k = choose|k: int| 0 <= k < s.len() && #[trigger] s[k].contract_id == other;
                match position_of(ds, d.contract_id) {
                    Some(q) => {
                        if k != q {
                            assert(ds[k].contract_id == other);
                        }
                    },
                    None => {
                        if k < ds.len() {
                            assert(ds[k].contract_id == other);
                        }
                    },
                }
            }
        },
    }
}

/// After a delete nothing is read under the deleted contract id.
pub proof fn law_read_after_delete(ds: Seq<DeploymentView>, contract_id: u64)
    requires
        unique_contracts(ds),
    ensures
        position_of(without(ds, contract_id), contract_id) is None,
{
    let s = without(ds, contract_id);
    match position_of(ds, contract_id) {
        Some(i) => {
            assert(ds[i].contract_id == contract_id);
            if exists|k: int| 0 <= k < s.len() && #[trigger] s[k].contract_id == contract_id {
                let k = choose|k: int| 0 <= k < s.len() && #[trigger] s[k].contract_id == contract_id;
                let k2 = if k < i { k } else { k + 1 };
                assert(s[k] == ds[k2]);
                assert(ds[k2].contract_id != ds[i].contract_id);
            }
        },
        None => {},
    }
}

/// A node that keeps its deployments in memory, one per contract.
#[derive(Debug)]
pub struct MockNodeClient {
    node_id: u32,
    deployments: Vec<zos::Deployment>,
}

impl MockNodeClient {
    #[verifier::type_invariant]
    spec fn contracts_unique(self) -> bool {
        unique_contracts(deployment_views(self.deployments@))
    }

    /// The deployments, in the order they were first stored.
    pub closed spec fn stored_deployments(self) -> Seq<DeploymentView> {
        deployment_views(self.deployments@)
    }

    /// The node this client serves.
    pub closed spec fn spec_node(self) -> u32 {
        self.node_id
    }

    /// An empty node.
    pub fn new(node_id: u32) -> (r: MockNodeClient)
        ensures
            r.spec_node() == node_id,
            r.stored_deployments() == Seq::<DeploymentView>::empty(),
    {
        let r = MockNodeClient { node_id, deployments: Vec::new() };
        assert(deployment_views(r.deployments@) =~= Seq::<DeploymentView>::empty());
        r
    }

    /// Stores a deployment under its contract id.
    pub fn insert_deployment(&mut self, deployment: zos::Deployment)
        ensures
            final(self).stored_deployments() == stored(old(self).stored_deployments(), deployment@),
            final(self).spec_node() == old(self).spec_node(),
    {
        proof {
            use_type_invariant(&*self);
        }
        let ghost ds = deployment_views(self.deployments@);
        let ghost dv = deployment@;
        let mut i: usize = 0;
        while i < self.deployments.len()
            invariant
                self.deployments@ == old(self).deployments@,
                self.node_id == old(self).node_id,
                ds == deployment_views(self.deployments@),
                unique_contracts(ds),
                dv == deployment@,
                i <= self.deployments@.len(),
                forall|j: int| 0 <= j < i ==> #[trigger] ds[j].contract_id != deployment.contract_id,
            decreases self.deployments.len() - i,
        {
            if self.deployments[i].contract_id == deployment.contract_id {
                proof {
                    assert(ds[i as int].contract_id == deployment.contract_id);
                    let p = choose|k: int| 0 <= k < ds.len() && #[trigger] ds[k].contract_id == deployment.contract_id;
                    if p != i {
                        assert(ds[p].contract_id != ds[i as int].contract_id);
                    }
                }
                let mut all: Vec<zos::Deployment> = Vec::new();
                std::mem::swap(&mut all, &mut self.deployments);
                all.set(i, deployment);
                proof {
                    assert(deployment_views(all@) =~= ds.update(i as int, dv));
                    assert forall|a: int, b: int| 0 <= a < ds.len() && 0 <= b < ds.len() && a != b implies #[trigger] deployment_views(all@)[a].contract_id != #[trigger] deployment_views(all@)[b].contract_id by {
                        assert(ds[a].contract_id != ds[b].contract_id);
                    }
                }
                self.deployments = all;
                return;
            }
            i = i + 1;
        }
        let mut all: Vec<zos::Deployment> = Vec::new();
        std::mem::swap(&mut all, &mut self.deployments);
        all.push(deployment);
        proof {
            assert(deployment_views(all@) =~= ds.push(dv));
            assert(position_of(ds, dv.contract_id) is None);
        }
        self.deployments = all;
    }

    /// Copies of the stored deployments.
    pub fn deployments(&self) -> (r: Vec<zos::Deployment>)
        ensures
            deployment_views(r@) == self.stored_deployments(),
    {
        let mut out: Vec<zos::Deployment> = Vec::new();
        let mut i: usize = 0;
        while i < self.deployments.len()
            invariant
                i <= self.deployments@.len(),
                deployment_views(out@) == deployment_views(self.deployments@.take(i as int)),
            decreases self.deployments.len() - i,
        {
            let ghost before = out@;
            out.push(self.deployments[i].clone());
            assert(deployment_views(out@) =~= deployment_views(before).push(self.deployments@[i as int]@));
            assert(deployment_views(self.deployments@.take(i + 1)) =~= deployment_views(self.deployments@.take(i as int)).push(self.deployments@[i as int]@));
            i = i + 1;
        }
        assert(self.deployments@.take(self.deployments@.len() as int) =~= self.deployments@);
        out
    }
}

impl NodeClient for MockNodeClient {
    open spec fn held(&self) -> Seq<DeploymentView> {
        self.stored_deployments()
    }

    fn deployment_list(&self) -> (r: Result<Vec<zos::Deployment>, GridError>)
        ensures
            r matches Ok(v) && deployment_views(v@) == self.stored_deployments(),
            unique_contracts(self.stored_deployments()),
    {
        proof {
            use_type_invariant(self);
        }
        Ok(self.deployments())
    }

    fn deployment_get(&self, contract_id: u64) -> (r: Result<zos::Deployment, GridError>)
        ensures
            match position_of(self.stored_deployments(), contract_id) {
                Some(i) => r matches Ok(d) && d@ == self.stored_deployments()[i],
                None => r matches Err(e) && is_not_found(e, numbered("deployment "@, contract_id as nat)),
            },
            unique_contracts(self.stored_deployments()),
    {
        proof {
            use_type_invariant(self);
        }
        let ghost ds = deployment_views(self.deployments@);
        let mut i: usize = 0;
        while i < self.deployments.len()
            invariant
                ds == deployment_views(self.deployments@),
                unique_contracts(ds),
                i <= self.deployments@.len(),
                forall|j: int| 0 <= j < i ==> #[trigger] ds[j].contract_id != contract_id,
            decreases self.deployments.len() - i,
        {
            if self.deployments[i].contract_id == contract_id {
                proof {
                    assert(ds[i as int].contract_id == contract_id);
                    let p = choose|k: int| 0 <= k < ds.len() && #[trigger] ds[k].contract_id == contract_id;
                    if p != i {
                        assert(ds[p].contract_id != ds[i as int].contract_id);
                    }
                }
                return Ok(self.deployments[i].clone());
            }
            i = i + 1;
        }
        Err(crate::subi::not_found_numbered("deployment ", contract_id))
    }

    fn deployment_put(&mut self, deployment: zos::Deployment) -> (r: Result<(), GridError>)
        ensures
            deployment.contract_id == 0 ==> (r matches Err(e) && is_validation(e, "contract id is required"@))
                && final(self).stored_deployments() == old(self).stored_deployments(),
            deployment.contract_id != 0 ==> r is Ok && final(self).stored_deployments() == stored(
                old(self).stored_deployments(),
                deployment@,
            ),
            unique_contracts(old(self).stored_deployments()),
            final(self).spec_node() == old(self).spec_node(),
    {
        proof {
            use_type_invariant(&*self);
        }
        if deployment.contract_id == 0 {
            return Err(GridError::validation("contract id is required"));
        }
        self.insert_deployment(deployment);
        Ok(())
    }

    fn deployment_delete(&mut self, contract_id: u64) -> (r: Result<(), GridError>)
        ensures
            r is Ok,
            final(self).stored_deployments() == without(old(self).stored_deployments(), contract_id),
            final(self).spec_node() == old(self).spec_node(),
    {
        proof {
            use_type_invariant(&*self);
        }
        let ghost ds = deployment_views(self.deployments@);
        let mut i: usize = 0;
        while i < self.deployments.len()
            invariant
                self.deployments@ == old(self).deployments@,
                self.node_id == old(self).node_id,
                ds == deployment_views(self.deployments@),
                unique_contracts(ds),
                i <= self.deployments@.len(),
                forall|j: int| 0 <= j < i ==> #[trigger] ds[j].contract_id != contract_id,
            decreases self.deployments.len() - i,
        {
            if self.deployments[i].contract_id == contract_id {
                proof {
                    assert(ds[i as int].contract_id == contract_id);
                    let p = choose|k: int| 0 <= k < ds.len() && #[trigger] ds[k].contract_id == contract_id;
                    if p != i {
                        assert(ds[p].contract_id != ds[i as int].contract_id);
                    }
                }
                let mut all: Vec<zos::Deployment> = Vec::new();
                std::mem::swap(&mut all, &mut self.deployments);
                all.remove(i);
                proof {
                    assert(deployment_views(all@) =~= ds.remove(i as int));
                    assert forall|a: int, b: int| 0 <= a < ds.len() - 1 && 0 <= b < ds.len() - 1 && a != b implies #[trigger] deployment_views(all@)[a].contract_id != #[trigger] deployment_views(all@)[b].contract_id by {
                        let a2 = if a < i { a } else { a + 1 };
                        let b2 = if b < i { b } else { b + 1 };
                        assert(ds[a2].contract_id != ds[b2].contract_id);
                    }
                }
                self.deployments = all;
                return Ok(());
            }
            i = i + 1;
        }
        Ok(())
    }

    fn node_id(&self) -> (r: u32)
        ensures
            r == self.spec_node(),
    {
        self.node_id
    }
}

/// The position of the first key `n` among `keys`.
pub open spec fn key_pos(keys: Seq<u32>, n: u32) -> Option<int>
    decreases keys.len(),
{
    if keys.len() == 0 {
        None
    } else if keys[0] == n {
        Some(0)
    } else {
        match key_pos(keys.drop_first(), n) {
            Some(i) => Some(i + 1),
            None => None,
        }
    }
}

/// [`key_pos`] finds the first occurrence, or tells there is none.
pub proof fn lemma_key_pos(keys: Seq<u32>, n: u32)
    ensures
        match key_pos(keys, n) {
            Some(i) => 0 <= i < keys.len() && keys[i] == n && forall|j: int| 0 <= j < i ==> #[trigger] keys[j] != n,
            None => forall|j: int| 0 <= j < keys.len() ==> #[trigger] keys[j] != n,
        },
    decreases keys.len(),
{
    if keys.len() > 0 && keys[0] != n {
        lemma_key_pos(keys.drop_first(), n);
        let rest = keys.drop_first();
        match key_pos(rest, n) {
            Some(i) => {
                assert forall|j: int| 0 <= j < i + 1 implies #[trigger] keys[j] != n by {
                    if j > 0 {
                        assert(keys[j] == rest[j - 1]);
                    }
                }
            },
            None => {
                assert forall|j: int| 0 <= j < keys.len() implies #[trigger] keys[j] != n by {
                    if j > 0 {
                        assert(keys[j] == rest[j - 1]);
                    }
                }
            },
        }
    }
}

/// In-memory nodes, created on first use.
#[derive(Debug)]
pub struct MockNodeClientGetter {
    clients: Vec<(u32, MockNodeClient)>,
}

/// The node keys of the clients, in order.
pub open spec fn client_keys(cs: Seq<(u32, MockNodeClient)>) -> Seq<u32> {
    cs.map_values(|p: (u32, MockNodeClient)| p.0)
}

/// What node `node_id` holds among clients `cs`: the deployments of its
/// first client; nothing when it has none.
pub open spec fn held_in(cs: Seq<(u32, MockNodeClient)>, node_id: u32) -> Seq<DeploymentView> {
    match key_pos(client_keys(cs), node_id) {
        Some(i) => cs[i].1.stored_deployments(),
        None => Seq::empty(),
    }
}

impl MockNodeClientGetter {
    /// The clients known so far with their nodes, in the order they were
    /// first used.
    pub closed spec fn entries(self) -> Seq<(u32, MockNodeClient)> {
        self.clients@
    }

    /// What node `node_id` holds: the deployments of its first client;
    /// nothing before it is used.
    pub open spec fn held_by(self, node_id: u32) -> Seq<DeploymentView> {
        held_in(self.entries(), node_id)
    }

    /// No node yet.
    pub fn new() -> (r: MockNodeClientGetter)
        ensures
            r.entries().len() == 0,
            forall|n: u32| #[trigger] r.held_by(n) == Seq::<DeploymentView>::empty(),
    {
        MockNodeClientGetter { clients: Vec::new() }
    }

    /// The client of `node_id`, if that node was used.
    pub fn client(&self, node_id: u32) -> (r: Option<&MockNodeClient>)
        ensures
            r matches Some(c) ==> key_pos(client_keys(self.entries()), node_id) is Some && c.stored_deployments() == self.held_by(node_id),
            r is None ==> key_pos(client_keys(self.entries()), node_id) is None && self.held_by(node_id) == Seq::<DeploymentView>::empty(),
    {
        let i = self.position(node_id);
        if i < self.clients.len() {
            Some(&self.clients[i].1)
        } else {
            None
        }
    }

    /// The position of the first client of `node_id`; the number of clients
    /// when there is none.
    fn position(&self, node_id: u32) -> (r: usize)
        ensures
            r <= self.entries().len(),
            r < self.entries().len() ==> key_pos(client_keys(self.entries()), node_id) == Some(r as int),
            r == self.entries().len() ==> key_pos(client_keys(self.entries()), node_id) is None,
    {
        let ghost ks = client_keys(self.clients@);
        proof {
            lemma_key_pos(ks, node_id);
        }
        let mut i: usize = 0;
        while i < self.clients.len()
            invariant
                ks == client_keys(self.clients@),
                i <= self.clients@.len(),
                forall|j: int| 0 <= j < i ==> #[trigger] ks[j] != node_id,
                match key_pos(ks, node_id) {
                    Some(k) => 0 <= k < ks.len() && ks[k] == node_id && forall|j: int| 0 <= j < k ==> #[trigger] ks[j] != node_id,
                    None => forall|j: int| 0 <= j < ks.len() ==> #[trigger] ks[j] != node_id,
                },
            decreases self.clients.len() - i,
        {
            assert(ks[i as int] == self.clients@[i as int].0);
            if self.clients[i].0 == node_id {
                return i;
            }
            i = i + 1;
        }
        i
    }

    /// The position of the client of `node_id`, creating an empty node when
    /// there is none.
    fn ensure_node_client(&mut self, node_id: u32) -> (r: usize)
        ensures
            r < final(self).entries().len(),
            key_pos(client_keys(final(self).entries()), node_id) == Some(r as int),
            key_pos(client_keys(old(self).entries()), node_id) is Some ==> final(self).entries() == old(self).entries(),
            key_pos(client_keys(old(self).entries()), node_id) is None ==> r == old(self).entries().len()
                && final(self).entries() == old(self).entries().push((node_id, final(self).entries()[r as int].1))
                && final(self).entries()[r as int].1.stored_deployments() == Seq::<DeploymentView>::empty(),
    {
        let i = self.position(node_id);
        if i < self.clients.len() {
            return i;
        }
        let ghost before = self.clients@;
        self.clients.push((node_id, MockNodeClient::new(node_id)));
        proof {
            lemma_key_pos(client_keys(before), node_id);
            lemma_key_pos(client_keys(self.clients@), node_id);
            assert(client_keys(self.clients@) =~= client_keys(before).push(node_id));
            let k = i as int;
            match key_pos(client_keys(self.clients@), node_id) {
                Some(p) => {
                    if p < k {
                        assert(client_keys(before)[p] == node_id);
                    }
                },
                None => {
                    assert(client_keys(self.clients@)[k] == node_id);
                },
            }
        }
        i
    }

    /// The client at position `i`.
    fn entry_mut(&mut self, i: usize) -> (c: &mut MockNodeClient)
        requires
            i < old(self).entries().len(),
        ensures
            *c == old(self).entries()[i as int].1,
            final(self).entries() == old(self).entries().update(i as int, (old(self).entries()[i as int].0, *final(c))),
    {
        &mut self.clients[i].1
    }

    /// Stores a deployment on `node_id`, creating the node when needed; no
    /// other node changes.
    pub fn insert_deployment(&mut self, node_id: u32, deployment: zos::Deployment) -> (r: Result<(), GridError>)
        ensures
            r is Ok,
            final(self).held_by(node_id) == stored(old(self).held_by(node_id), deployment@),
            forall|n: u32| n != node_id ==> #[trigger] final(self).held_by(n) == old(self).held_by(n),
    {
        let i = self.ensure_node_client(node_id);
        let ghost mid = self.clients@;
        let mut all: Vec<(u32, MockNodeClient)> = Vec::new();
        std::mem::swap(&mut all, &mut self.clients);
        let (k, mut c) = all.remove(i);
        c.insert_deployment(deployment);
        all.insert(i, (k, c));
        self.clients = all;
        proof {
            assert(self.clients@ =~= mid.update(i as int, (k, c)));
            assert(client_keys(self.clients@) =~= client_keys(mid));
            lemma_key_pos(client_keys(old(self).clients@), node_id);
            assert forall|n: u32| n != node_id implies #[trigger] final(self).held_by(n) == old(self).held_by(n) by {
                lemma_key_pos(client_keys(mid), n);
                lemma_key_pos(client_keys(old(self).clients@), n);
                if key_pos(client_keys(old(self).clients@), node_id) is None {
                    assert(client_keys(mid) =~= client_keys(old(self).clients@).push(node_id));
                    match key_pos(client_keys(mid), n) {
                        Some(p) => {
                            assert(p != i);
                            match key_pos(client_keys(old(self).clients@), n) {
                                Some(q) => {
                                    assert(client_keys(mid)[q] == n);
                                    if p < q {
                                        assert(client_keys(old(self).clients@)[p] == n);
                                    }
                                },
                                None => {
                                    assert(client_keys(old(self).clients@)[p] == n);
                                },
                            }
                        },
                        None => {
                            match key_pos(client_keys(old(self).clients@), n) {
                                Some(q) => {
                                    assert(client_keys(mid)[q] == n);
                                },
                                None => {},
                            }
                        },
                    }
                }
            }
        }
        Ok(())
    }
}

impl NodeClientGetter for MockNodeClientGetter {
    type Client = MockNodeClient;

    open spec fn node_held(&self, node_id: u32) -> Seq<DeploymentView> {
        self.held_by(node_id)
    }

    fn get_node_client<S: SubstrateExt>(&mut self, substrate: &S, node_id: u32) -> (r: Result<&mut MockNodeClient, GridError>)
        ensures
            r is Err ==> final(self).entries() == old(self).entries(),
    {
        let _ = substrate.get_node(node_id)?;
        let i = self.ensure_node_client(node_id);
        let ghost mid = self.clients@;
        proof {
            lemma_key_pos(client_keys(old(self).clients@), node_id);
            assert forall|n: u32| n != node_id implies #[trigger] held_in(mid, n) == held_in(old(self).clients@, n) by {
                lemma_key_pos(client_keys(mid), n);
                lemma_key_pos(client_keys(old(self).clients@), n);
                if key_pos(client_keys(old(self).clients@), node_id) is None {
                    assert(client_keys(mid) =~= client_keys(old(self).clients@).push(node_id));
                    match key_pos(client_keys(mid), n) {
                        Some(p) => {
                            match key_pos(client_keys(old(self).clients@), n) {
                                Some(q) => {
                                    assert(client_keys(mid)[q] == n);
                                    if p < q {
                                        assert(client_keys(old(self).clients@)[p] == n);
                                    }
                                },
                                None => {
                                    assert(client_keys(old(self).clients@)[p] == n);
                                },
                            }
                        },
                        None => {
                            match key_pos(client_keys(old(self).clients@), n) {
                                Some(q) => {
                                    assert(client_keys(mid)[q] == n);
                                },
                                None => {},
                            }
                        },
                    }
                }
            }
        }
        proof {
            lemma_key_pos(client_keys(mid), node_id);
            assert(mid[i as int].0 == node_id);
            assert forall|x: MockNodeClient| #[trigger] held_in(mid.update(i as int, (node_id, x)), node_id) == x.stored_deployments() by {
                assert(client_keys(mid.update(i as int, (node_id, x))) =~= client_keys(mid));
            }
            assert forall|x: MockNodeClient, n: u32| n != node_id implies #[trigger] held_in(mid.update(i as int, (node_id, x)), n) == held_in(mid, n) by {
                assert(client_keys(mid.update(i as int, (node_id, x))) =~= client_keys(mid));
                lemma_key_pos(client_keys(mid), n);
                match key_pos(client_keys(mid), n) {
                    Some(p) => {
                        assert(client_keys(mid)[p] == n);
                        assert(p != i);
                    },
                    None => {},
                }
            }
        }
        Ok(self.entry_mut(i))
    }
}

} // verus!
