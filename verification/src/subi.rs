//! The chain's data types, the operations the SDK needs from the chain, and
//! an in-memory chain.

use std::collections::HashMap;

use vstd::hash_map::StringHashMap;
use vstd::std_specs::iter::IteratorSpec;
use vstd::prelude::*;

use crate::error::{is_not_found, GridError};
use crate::text::u64_to_decimal;

verus! {

broadcast use vstd::std_specs::hash::group_hash_axioms;

pub const DEFAULT_PRICING_POLICY_ID: u32 = 1;

/// A price per unit.
#[derive(Debug, Clone, Copy, Default, PartialEq, Eq, Structural)]
pub struct Policy {
    pub value: u64,
}

/// The prices of the grid.
#[derive(Debug, Clone, Copy, Default, PartialEq, Eq, Structural)]
pub struct PricingPolicy {
    pub id: u32,
    pub su: Policy,
    pub cu: Policy,
    pub ipu: Policy,
    pub unique_name: Policy,
    pub dedicated_nodes_discount: u64,
}

/// The free balance of an account.
#[derive(Debug, Clone, Copy, Default, PartialEq, Eq, Structural)]
pub struct Balance {
    pub free: u128,
}

/// Whether a contract is created and whether it is deleted.
#[derive(Debug, Clone, Copy, Default, PartialEq, Eq, Structural)]
pub struct ContractState {
    pub is_created: bool,
    pub is_deleted: bool,
}

/// The node side of a node contract.
#[derive(Debug)]
pub struct NodeContract {
    pub node: u32,
    pub public_ips_count: u32,
    pub deployment_data: String,
}

impl Clone for NodeContract {
    fn clone(&self) -> (r: Self)
        ensures
            r == *self,
    {
        NodeContract { node: self.node, public_ips_count: self.public_ips_count, deployment_data: self.deployment_data.clone() }
    }
}

impl Default for NodeContract {
    fn default() -> (r: Self)
        ensures
            r.node == 0,
            r.public_ips_count == 0,
            r.deployment_data@.len() == 0,
    {
        NodeContract { node: 0, public_ips_count: 0, deployment_data: String::new() }
    }
}

/// The node side of a rent contract.
#[derive(Debug, Clone, Copy, Default, PartialEq, Eq, Structural)]
pub struct RentContract {
    pub node: u32,
}

/// The kind of a contract.
#[derive(Debug, Clone, Copy, PartialEq, Eq, Structural)]
pub enum ContractTypeKind {
    Name,
    Node,
    Rent,
}

/// What a contract is for.
#[derive(Debug)]
pub struct ContractType {
    pub is_name_contract: bool,
    pub is_node_contract: bool,
    pub is_rent_contract: bool,
    pub node_contract: NodeContract,
    pub rent_contract: RentContract,
}

impl Clone for ContractType {
    fn clone(&self) -> (r: Self)
        ensures
            r == *self,
    {
        ContractType {
            is_name_contract: self.is_name_contract,
            is_node_contract: self.is_node_contract,
            is_rent_contract: self.is_rent_contract,
            node_contract: self.node_contract.clone(),
            rent_contract: self.rent_contract,
        }
    }
}

impl Default for ContractType {
    fn default() -> (r: Self)
        ensures
            !r.is_name_contract && !r.is_node_contract && !r.is_rent_contract,
            r.node_contract.node == 0 && r.node_contract.public_ips_count == 0 && r.node_contract.deployment_data@.len() == 0,
            r.rent_contract.node == 0,
    {
        ContractType {
            is_name_contract: false,
            is_node_contract: false,
            is_rent_contract: false,
            node_contract: NodeContract::default(),
            rent_contract: RentContract { node: 0 },
        }
    }
}

/// The kind of a contract: name, else rent, else node.
pub open spec fn kind_of(t: ContractType) -> ContractTypeKind {
    if t.is_name_contract {
        ContractTypeKind::Name
    } else if t.is_rent_contract {
        ContractTypeKind::Rent
    } else {
        ContractTypeKind::Node
    }
}

/// The node of a node or rent contract.
pub open spec fn node_of(t: ContractType) -> Option<u32> {
    if t.is_node_contract {
        Some(t.node_contract.node)
    } else if t.is_rent_contract {
        Some(t.rent_contract.node)
    } else {
        None
    }
}

impl ContractType {
    /// The kind of the contract; a contract that claims several kinds is a
    /// name contract first, then a rent contract.
    pub fn kind(&self) -> (r: ContractTypeKind)
        ensures
            r == kind_of(*self),
    {
        if self.is_name_contract {
            ContractTypeKind::Name
        } else if self.is_rent_contract {
            ContractTypeKind::Rent
        } else {
            ContractTypeKind::Node
        }
    }

    /// The node of a node or rent contract.
    pub fn node_id(&self) -> (r: Option<u32>)
        ensures
            r == node_of(*self),
    {
        if self.is_node_contract {
            Some(self.node_contract.node)
        } else if self.is_rent_contract {
            Some(self.rent_contract.node)
        } else {
            None
        }
    }
}

/// A contract on the chain.
#[derive(Debug)]
pub struct Contract {
    pub contract_id: u64,
    pub state: ContractState,
    pub contract_type: ContractType,
}

impl Clone for Contract {
    fn clone(&self) -> (r: Self)
        ensures
            r == *self,
    {
        Contract { contract_id: self.contract_id, state: self.state, contract_type: self.contract_type.clone() }
    }
}

impl Default for Contract {
    fn default() -> (r: Self)
        ensures
            r.contract_id == 0,
            r.state == (ContractState { is_created: false, is_deleted: false }),
            node_of(r.contract_type) is None,
    {
        Contract { contract_id: 0, state: ContractState { is_created: false, is_deleted: false }, contract_type: ContractType::default() }
    }
}

impl Contract {
    /// Whether the contract is deleted.
    pub fn is_deleted(&self) -> (r: bool)
        ensures
            r == self.state.is_deleted,
    {
        self.state.is_deleted
    }

    /// Whether the contract is created.
    pub fn is_created(&self) -> (r: bool)
        ensures
            r == self.state.is_created,
    {
        self.state.is_created
    }
}

/// Whether a farm is certified.
#[derive(Debug, Clone, Copy, Default, PartialEq, Eq, Structural)]
pub struct Certification {
    pub is_certified: bool,
}

/// The capacity of a node.
#[derive(Debug, Clone, Copy, Default, PartialEq, Eq, Structural)]
pub struct NodeResources {
    pub cru: u64,
    pub mru: u64,
    pub hru: u64,
    pub sru: u64,
}

/// A node on the chain.
#[derive(Debug, Clone, Copy, Default, PartialEq, Eq, Structural)]
pub struct Node {
    pub id: u32,
    pub certification: Certification,
    pub resources: NodeResources,
}

/// Where the billing of a contract stands.
#[derive(Debug, Clone, Copy, Default, PartialEq, Eq, Structural)]
pub struct ContractPaymentState {
    pub last_updated_seconds: u64,
    pub standard_overdraft: u128,
    pub additional_overdraft: u128,
}

/// What a contract has not been billed yet.
#[derive(Debug, Clone, Copy, Default, PartialEq, Eq, Structural)]
pub struct ContractBillingInfo {
    pub amount_unbilled: u128,
}

/// The resources a contract uses.
#[derive(Debug, Clone, Copy, Default, PartialEq, Eq, Structural)]
pub struct ResourceUsed {
    pub cru: u64,
    pub mru: u64,
    pub hru: u64,
    pub sru: u64,
}

/// The resources a node contract uses.
#[derive(Debug, Clone, Copy, Default, PartialEq, Eq, Structural)]
pub struct NodeContractResources {
    pub used: ResourceUsed,
}

/// An account, by its address.
#[derive(Debug)]
pub struct Identity(pub String);

impl Identity {
    /// The address of the account.
    pub fn address(&self) -> (r: &str)
        ensures
            r@ == self.0@,
    {
        self.0.as_str()
    }

    /// The account with address `s`.
    pub fn from(s: &str) -> (r: Identity)
        ensures
            r.0@ == s@,
    {
        Identity(String::from_str(s))
    }
}

/// What a node broadcasts: `node:<id>:<certified>`.
pub open spec fn broadcast_text(c: Node) -> Seq<char> {
    "node:"@ + crate::text::decimal(c.id as nat) + ":"@ + crate::text::bool_text(c.certification.is_certified)
}

/// The chain operations the SDK uses. Implementations decide what each
/// call returns; the provided methods behave as documented on each.
pub trait SubstrateExt {
    /// The contracts on the chain, by id.
    spec fn contracts_view(&self) -> Map<u64, Contract>;

    /// The twin of each node.
    spec fn twins_view(&self) -> Map<u32, u32>;

    /// The node contract registered under each `<node>:<hash>` key (see
    /// [`hash_key`]).
    spec fn hashes_view(&self) -> Map<Seq<char>, u64>;

    /// The name contract of each registered name.
    spec fn names_view(&self) -> Map<Seq<char>, u64>;

    fn get_tft_billing_rate(&self) -> Result<u64, GridError>;

    fn get_pricing_policy(&self, policy_id: u32) -> Result<PricingPolicy, GridError>;

    fn get_balance(&self, identity: &str) -> Result<Balance, GridError>;

    /// The contract `contract_id`, when the chain answers with one.
    fn get_contract(&self, contract_id: u64) -> (r: Result<Contract, GridError>)
        ensures
            r matches Ok(c) ==> self.contracts_view().contains_key(contract_id) && c == self.contracts_view()[contract_id],
    ;

    fn get_contract_payment_state(&self, contract_id: u64) -> Result<ContractPaymentState, GridError>;

    fn get_contract_billing_info(&self, contract_id: u64) -> Result<ContractBillingInfo, GridError>;

    fn get_node(&self, node_id: u32) -> Result<Node, GridError>;

    fn get_node_contract_resources(&self, contract_id: u64) -> Result<NodeContractResources, GridError>;

    fn get_node_rent_contract(&self, node_id: u32) -> Result<u64, GridError>;

    fn get_node_contracts(&self, node_id: u32) -> Result<Vec<u64>, GridError>;

    /// The twin of `node_id`, when the chain answers with one.
    fn get_node_twin(&self, node_id: u32) -> (r: Result<u32, GridError>)
        ensures
            r matches Ok(t) ==> self.twins_view().contains_key(node_id) && t == self.twins_view()[node_id],
    ;

    fn get_dedicated_node_price(&self, node_id: u32) -> Result<u64, GridError>;

    /// The node contract registered for `node_id` and `hash`, when the chain
    /// answers with one.
    fn get_contract_with_hash(&self, identity: &Identity, node_id: u32, hash: &str) -> (r: Result<u64, GridError>)
        ensures
            r matches Ok(id) ==> self.hashes_view().contains_key(hash_key(node_id, hash@))
                && id == self.hashes_view()[hash_key(node_id, hash@)],
    ;

    /// The name contract of `name`; by default there is none.
    fn get_contract_id_by_name_registration(&self, name: &str) -> (r: Result<u64, GridError>)
        ensures
            r matches Ok(id) ==> self.names_view().contains_key(name@) && id == self.names_view()[name@],
        default_ensures
            r matches Err(e) && is_not_found(e, "name contract "@ + name@ + " not found"@),
    {
        Err(GridError::NotFound(String::from_str("name contract ").concat(name).concat(" not found")))
    }

    /// What a node broadcasts: `node:<id>:<certified>`.
    fn get_contract_broadcast_data(&self, node_id: u32) -> (r: Result<String, GridError>)
        default_ensures
            r matches Ok(s) ==> exists|c: Node| s@ == broadcast_text(c),
    {
        let c = self.get_node(node_id)?;
        let mut s = String::from_str("node:");
        crate::text::push_decimal(&mut s, c.id as u64);
        s.append(":");
        crate::text::push_bool(&mut s, c.certification.is_certified);
        assert(s@ == broadcast_text(c));
        Ok(s)
    }

    /// The account of a mnemonic; by default the phrase itself.
    fn new_identity_from_sr25519_phrase(&self, phrase: &str) -> (r: Result<Identity, GridError>)
        default_ensures
            r matches Ok(i) && i.0@ == phrase@,
    {
        Ok(Identity(String::from_str(phrase)))
    }

    /// Makes sure a contract is canceled; by default nothing to do.
    fn ensure_contract_canceled(&mut self, contract_id: u64) -> (r: Result<(), GridError>)
        default_ensures
            r is Ok,
    {
        Ok(())
    }

    /// Creates a node contract; by default not available.
    fn create_node_contract(
        &mut self,
        identity: &Identity,
        node: u32,
        deployment_data: &str,
        hash: &str,
        public_ips: u32,
    ) -> (r: Result<u64, GridError>)
        ensures
            r matches Ok(id) ==> {
                &&& final(self).contracts_view().contains_key(id)
                &&& new_node_contract(final(self).contracts_view()[id], id, node, deployment_data@, public_ips)
                &&& forall|k: u64| k != id && #[trigger] old(self).contracts_view().contains_key(k)
                    ==> final(self).contracts_view().contains_key(k) && final(self).contracts_view()[k] == old(self).contracts_view()[k]
                &&& final(self).hashes_view() == old(self).hashes_view().insert(hash_key(node, hash@), id)
                &&& final(self).twins_view() == old(self).twins_view()
            },
            r is Err ==> final(self).contracts_view() == old(self).contracts_view() && final(self).hashes_view() == old(self).hashes_view(),
        default_ensures
            r matches Err(GridError::Backend(m)) && m@ == "create_node_contract is not implemented"@,
    {
        Err(GridError::Backend(String::from_str("create_node_contract is not implemented")))
    }

    /// Cancels a contract.
    ///
    /// Success means the contract is on the chain and now marked deleted;
    /// a failed call leaves the chain's contracts as they were.
    fn cancel_contract(&mut self, identity: &Identity, contract_id: u64) -> (r: Result<(), GridError>)
        ensures
            r is Ok ==> old(self).contracts_view().contains_key(contract_id)
                && final(self).contracts_view() == cancelled(old(self).contracts_view(), contract_id),
            r is Err ==> final(self).contracts_view() == old(self).contracts_view(),
            final(self).twins_view() == old(self).twins_view(),
    ;
}

/// The contracts with `contract_id` marked deleted.
pub open spec fn cancelled(cs: Map<u64, Contract>, contract_id: u64) -> Map<u64, Contract> {
    cs.insert(contract_id, Contract { state: ContractState { is_created: false, is_deleted: true }, ..cs[contract_id] })
}

/// The text of a not-found error about `what` and a number.
pub open spec fn numbered(what: Seq<char>, n: nat) -> Seq<char> {
    what + crate::text::decimal(n)
}

pub(crate) fn not_found_numbered(what: &str, n: u64) -> (r: GridError)
    ensures
        is_not_found(r, numbered(what@, n as nat)),
{
    GridError::NotFound(String::from_str(what).concat(u64_to_decimal(n).as_str()))
}

/// An in-memory chain for tests and examples.
pub struct MockSubstrate {
    pub pricing_policy: PricingPolicy,
    pub tft_rate: u64,
    pub contracts: HashMap<u64, Contract>,
    pub nodes: HashMap<u32, Node>,
    pub node_contracts: HashMap<u32, Vec<u64>>,
    pub contract_resources: HashMap<u64, NodeContractResources>,
    pub contract_payment: HashMap<u64, ContractPaymentState>,
    pub contract_billing: HashMap<u64, ContractBillingInfo>,
    pub contract_hashes: StringHashMap<u64>,
    pub name_contracts: StringHashMap<u64>,
    pub balances: StringHashMap<Balance>,
    pub next_contract_id: u64,
}

/// The prices of the in-memory chain.
pub open spec fn mock_pricing() -> PricingPolicy {
    PricingPolicy {
        id: DEFAULT_PRICING_POLICY_ID,
        su: Policy { value: 50000 },
        cu: Policy { value: 100000 },
        ipu: Policy { value: 40000 },
        unique_name: Policy { value: 300000 },
        dedicated_nodes_discount: 20,
    }
}

impl Default for MockSubstrate {
    fn default() -> (r: Self)
        ensures
            r.pricing_policy == (PricingPolicy {
                id: 0,
                su: Policy { value: 0 },
                cu: Policy { value: 0 },
                ipu: Policy { value: 0 },
                unique_name: Policy { value: 0 },
                dedicated_nodes_discount: 0,
            }),
            r.tft_rate == 0,
            r.next_contract_id == 0,
            r.contracts@ == Map::<u64, Contract>::empty(),
            r.nodes@ == Map::<u32, Node>::empty(),
            r.node_contracts@ == Map::<u32, Vec<u64>>::empty(),
    {
        MockSubstrate {
            pricing_policy: PricingPolicy {
                id: 0,
                su: Policy { value: 0 },
                cu: Policy { value: 0 },
                ipu: Policy { value: 0 },
                unique_name: Policy { value: 0 },
                dedicated_nodes_discount: 0,
            },
            tft_rate: 0,
            contracts: HashMap::new(),
            nodes: HashMap::new(),
            node_contracts: HashMap::new(),
            contract_resources: HashMap::new(),
            contract_payment: HashMap::new(),
            contract_billing: HashMap::new(),
            contract_hashes: StringHashMap::new(),
            name_contracts: StringHashMap::new(),
            balances: StringHashMap::new(),
            next_contract_id: 0,
        }
    }
}

impl MockSubstrate {
    /// An empty chain with the default prices, a TFT rate of 5 and the
    /// first contract id 1.
    pub fn new() -> (r: MockSubstrate)
        ensures
            r.pricing_policy == mock_pricing(),
            r.tft_rate == 5,
            r.next_contract_id == 1,
            r.contracts@ == Map::<u64, Contract>::empty(),
            r.nodes@ == Map::<u32, Node>::empty(),
            r.node_contracts@ == Map::<u32, Vec<u64>>::empty(),
            r.contract_resources@ == Map::<u64, NodeContractResources>::empty(),
            r.contract_payment@ == Map::<u64, ContractPaymentState>::empty(),
            r.contract_billing@ == Map::<u64, ContractBillingInfo>::empty(),
            r.contract_hashes@ == Map::<Seq<char>, u64>::empty(),
            r.name_contracts@ == Map::<Seq<char>, u64>::empty(),
            r.balances@ == Map::<Seq<char>, Balance>::empty(),
    {
        MockSubstrate {
            pricing_policy: PricingPolicy {
                id: DEFAULT_PRICING_POLICY_ID,
                su: Policy { value: 50000 },
                cu: Policy { value: 100000 },
                ipu: Policy { value: 40000 },
                unique_name: Policy { value: 300000 },
                dedicated_nodes_discount: 20,
            },
            tft_rate: 5,
            contracts: HashMap::new(),
            nodes: HashMap::new(),
            node_contracts: HashMap::new(),
            contract_resources: HashMap::new(),
            contract_payment: HashMap::new(),
            contract_billing: HashMap::new(),
            contract_hashes: StringHashMap::new(),
            name_contracts: StringHashMap::new(),
            balances: StringHashMap::new(),
            next_contract_id: 1,
        }
    }

    /// Lists contract `id` under node `node`.
    fn push_node_contract(&mut self, node: u32, id: u64)
        ensures
            final(self).node_contracts@.dom() == old(self).node_contracts@.dom().insert(node),
            final(self).node_contracts@[node]@ == (if old(self).node_contracts@.contains_key(node) {
                old(self).node_contracts@[node]@
            } else {
                Seq::empty()
            }).push(id),
            forall|m: u32| m != node && #[trigger] old(self).node_contracts@.contains_key(m) ==> final(self).node_contracts@[m] == old(self).node_contracts@[m],
            final(self).contracts@ == old(self).contracts@,
            final(self).nodes@ == old(self).nodes@,
            final(self).next_contract_id == old(self).next_contract_id,
            final(self).contract_hashes@ == old(self).contract_hashes@,
    {
        let mut ids: Vec<u64> = match self.node_contracts.remove(&node) {
            Some(v) => v,
            None => Vec::new(),
        };
        ids.push(id);
        self.node_contracts.insert(node, ids);
        assert(self.node_contracts@.dom() =~= old(self).node_contracts@.dom().insert(node));
    }

    /// Adds (or replaces) a node.
    pub fn add_node(&mut self, node: Node)
        ensures
            final(self).nodes@ == old(self).nodes@.insert(node.id, node),
            final(self).contracts@ == old(self).contracts@,
            final(self).node_contracts@ == old(self).node_contracts@,
            final(self).next_contract_id == old(self).next_contract_id,
    {
        self.nodes.insert(node.id, node);
    }

    /// Adds (or replaces) a contract, lists it under its node, and moves the
    /// next contract id past it.
    pub fn add_contract(&mut self, contract: Contract)
        ensures
            final(self).contracts@ == old(self).contracts@.insert(contract.contract_id, contract),
            match node_of(contract.contract_type) {
                Some(n) => final(self).node_contracts@.dom() == old(self).node_contracts@.dom().insert(n)
                    && final(self).node_contracts@[n]@ == (if old(self).node_contracts@.contains_key(n) {
                        old(self).node_contracts@[n]@
                    } else {
                        Seq::empty()
                    }).push(contract.contract_id)
                    && forall|m: u32| m != n && #[trigger] old(self).node_contracts@.contains_key(m) ==> final(self).node_contracts@[m] == old(self).node_contracts@[m],
                None => final(self).node_contracts@ == old(self).node_contracts@,
            },
            final(self).next_contract_id == (if contract.contract_id >= old(self).next_contract_id {
                if contract.contract_id == u64::MAX { u64::MAX } else { (contract.contract_id + 1) as u64 }
            } else {
                old(self).next_contract_id
            }),
            final(self).nodes@ == old(self).nodes@,
    {
        match contract.contract_type.node_id() {
            Some(node_id) => {
                self.push_node_contract(node_id, contract.contract_id);
            },
            None => {},
        }
        let contract_id = contract.contract_id;
        self.contracts.insert(contract_id, contract);
        if contract_id >= self.next_contract_id {
            self.next_contract_id = contract_id.saturating_add(1);
        }
    }

    /// Records the payment state of a contract.
    pub fn add_contract_payment(&mut self, contract_id: u64, state: ContractPaymentState)
        ensures
            final(self).contract_payment@ == old(self).contract_payment@.insert(contract_id, state),
    {
        self.contract_payment.insert(contract_id, state);
    }

    /// Records the resources a contract uses.
    pub fn add_contract_resources(&mut self, contract_id: u64, resources: NodeContractResources)
        ensures
            final(self).contract_resources@ == old(self).contract_resources@.insert(contract_id, resources),
    {
        self.contract_resources.insert(contract_id, resources);
    }

    /// Records the billing info of a contract.
    pub fn add_contract_billing_info(&mut self, contract_id: u64, info: ContractBillingInfo)
        ensures
            final(self).contract_billing@ == old(self).contract_billing@.insert(contract_id, info),
    {
        self.contract_billing.insert(contract_id, info);
    }

    /// Sets the balance of an account.
    pub fn set_balance(&mut self, identity: &str, balance: Balance)
        ensures
            final(self).balances@ == old(self).balances@.insert(identity@, balance),
    {
        self.balances.insert(String::from_str(identity), balance);
    }

    /// Registers a contract under a `<node>:<hash>` key.
    pub fn set_contract_hash(&mut self, hash: &str, contract_id: u64)
        ensures
            final(self).contract_hashes@ == old(self).contract_hashes@.insert(hash@, contract_id),
    {
        self.contract_hashes.insert(String::from_str(hash), contract_id);
    }

    /// Registers a name contract.
    pub fn set_contract_name(&mut self, name: &str, contract_id: u64)
        ensures
            final(self).name_contracts@ == old(self).name_contracts@.insert(name@, contract_id),
    {
        self.name_contracts.insert(String::from_str(name), contract_id);
    }
}

impl SubstrateExt for MockSubstrate {
    open spec fn contracts_view(&self) -> Map<u64, Contract> {
        self.contracts@
    }

    open spec fn twins_view(&self) -> Map<u32, u32> {
        Map::new(|n: u32| self.nodes@.contains_key(n), |n: u32| n)
    }

    open spec fn hashes_view(&self) -> Map<Seq<char>, u64> {
        self.contract_hashes@
    }

    open spec fn names_view(&self) -> Map<Seq<char>, u64> {
        self.name_contracts@
    }

    fn get_tft_billing_rate(&self) -> (r: Result<u64, GridError>)
        ensures
            r == Ok::<u64, GridError>(self.tft_rate),
    {
        Ok(self.tft_rate)
    }

    fn get_pricing_policy(&self, policy_id: u32) -> (r: Result<PricingPolicy, GridError>)
        ensures
            self.pricing_policy.id == policy_id ==> r == Ok::<PricingPolicy, GridError>(self.pricing_policy),
            self.pricing_policy.id != policy_id ==> (r matches Err(e) && is_not_found(e, numbered("pricing policy "@, policy_id as nat))),
    {
        if self.pricing_policy.id == policy_id {
            Ok(self.pricing_policy)
        } else {
            Err(not_found_numbered("pricing policy ", policy_id as u64))
        }
    }

    fn get_balance(&self, identity: &str) -> (r: Result<Balance, GridError>)
        ensures
            self.balances@.contains_key(identity@) ==> r == Ok::<Balance, GridError>(self.balances@[identity@]),
            !self.balances@.contains_key(identity@) ==> (r matches Err(e) && is_not_found(e, "identity "@ + identity@)),
    {
        match self.balances.get(identity) {
            Some(b) => Ok(*b),
            None => Err(GridError::NotFound(String::from_str("identity ").concat(identity))),
        }
    }

    fn get_contract(&self, contract_id: u64) -> (r: Result<Contract, GridError>)
        ensures
            self.contracts@.contains_key(contract_id) ==> r == Ok::<Contract, GridError>(self.contracts@[contract_id]),
            !self.contracts@.contains_key(contract_id) ==> (r matches Err(e) && is_not_found(e, numbered("contract "@, contract_id as nat))),
    {
        match self.contracts.get(&contract_id) {
            Some(c) => Ok(c.clone()),
            None => Err(not_found_numbered("contract ", contract_id)),
        }
    }

    fn get_contract_payment_state(&self, contract_id: u64) -> (r: Result<ContractPaymentState, GridError>)
        ensures
            self.contract_payment@.contains_key(contract_id) ==> r == Ok::<ContractPaymentState, GridError>(self.contract_payment@[contract_id]),
            !self.contract_payment@.contains_key(contract_id) ==> (r matches Err(e) && is_not_found(e, numbered("contract payment state "@, contract_id as nat))),
    {
        match self.contract_payment.get(&contract_id) {
            Some(c) => Ok(*c),
            None => Err(not_found_numbered("contract payment state ", contract_id)),
        }
    }

    fn get_contract_billing_info(&self, contract_id: u64) -> (r: Result<ContractBillingInfo, GridError>)
        ensures
            self.contract_billing@.contains_key(contract_id) ==> r == Ok::<ContractBillingInfo, GridError>(self.contract_billing@[contract_id]),
            !self.contract_billing@.contains_key(contract_id) ==> (r matches Err(e) && is_not_found(e, numbered("contract billing info "@, contract_id as nat))),
    {
        match self.contract_billing.get(&contract_id) {
            Some(c) => Ok(*c),
            None => Err(not_found_numbered("contract billing info ", contract_id)),
        }
    }

    fn get_node(&self, node_id: u32) -> (r: Result<Node, GridError>)
        ensures
            self.nodes@.contains_key(node_id) ==> r == Ok::<Node, GridError>(self.nodes@[node_id]),
            !self.nodes@.contains_key(node_id) ==> (r matches Err(e) && is_not_found(e, numbered("node "@, node_id as nat))),
    {
        match self.nodes.get(&node_id) {
            Some(n) => Ok(*n),
            None => Err(not_found_numbered("node ", node_id as u64)),
        }
    }

    fn get_node_contract_resources(&self, contract_id: u64) -> (r: Result<NodeContractResources, GridError>)
        ensures
            self.contract_resources@.contains_key(contract_id) ==> r == Ok::<NodeContractResources, GridError>(self.contract_resources@[contract_id]),
            !self.contract_resources@.contains_key(contract_id) ==> (r matches Err(e) && is_not_found(e, numbered("node contract resources "@, contract_id as nat))),
    {
        match self.contract_resources.get(&contract_id) {
            Some(c) => Ok(*c),
            None => Err(not_found_numbered("node contract resources ", contract_id)),
        }
    }

    /// The id of a created rent contract on a known node; which one comes
    /// back when there are several is left open (the map has no order).
    fn get_node_rent_contract(&self, node_id: u32) -> (r: Result<u64, GridError>)
        ensures
            r matches Ok(id) ==> self.nodes@.contains_key(node_id) && exists|k: u64|
                #[trigger] self.contracts@.contains_key(k) && self.contracts@[k].contract_id == id
                    && self.contracts@[k].contract_type.rent_contract.node == node_id && self.contracts@[k].state.is_created,
            r is Err ==> !self.nodes@.contains_key(node_id) || forall|id: u64| #[trigger] self.contracts@.contains_key(id)
                ==> !(self.contracts@[id].contract_type.rent_contract.node == node_id && self.contracts@[id].state.is_created),
            r matches Err(e) ==> is_not_found(e, numbered("rent contract "@, node_id as nat)),
    {
        if !self.nodes.contains_key(&node_id) {
            return Err(not_found_numbered("rent contract ", node_id as u64));
        }
        for pair in it: self.contracts.iter()
            invariant
                self.nodes@.contains_key(node_id),
                it.seq() == vstd::std_specs::hash::spec_hash_map_iter(&self.contracts).remaining(),
                forall|j: int| 0 <= j < it.index() ==> !(#[trigger] it.seq()[j].1.contract_type.rent_contract.node == node_id && it.seq()[j].1.state.is_created),
        {
            let (k, c) = pair;
            if c.contract_type.rent_contract.node == node_id && c.state.is_created {
                proof {
                    broadcast use vstd::std_specs::hash::axiom_spec_hash_map_iter;
                }
                assert(self.contracts@.contains_key(*k));
                assert(self.contracts@[*k] == *c);
                return Ok(c.contract_id);
            }
        }
        proof {
            broadcast use vstd::std_specs::hash::axiom_spec_hash_map_iter;
            let v = vstd::std_specs::hash::spec_hash_map_iter(&self.contracts).remaining();
            assert forall|id: u64| #[trigger] self.contracts@.contains_key(id) implies !(self.contracts@[id].contract_type.rent_contract.node == node_id && self.contracts@[id].state.is_created) by {
                assert(v.contains((&id, &self.contracts@[id])));
                let j = choose|j: int| 0 <= j < v.len() && v[j] == (&id, &self.contracts@[id]);
                assert(!(v[j].1.contract_type.rent_contract.node == node_id && v[j].1.state.is_created));
            }
        }
        Err(not_found_numbered("rent contract ", node_id as u64))
    }

    fn get_node_contracts(&self, node_id: u32) -> (r: Result<Vec<u64>, GridError>)
        ensures
            r matches Ok(v) && v@ == (if self.node_contracts@.contains_key(node_id) {
                self.node_contracts@[node_id]@
            } else {
                Seq::empty()
            }),
    {
        match self.node_contracts.get(&node_id) {
            Some(v) => Ok(vstd::slice::slice_to_vec(v.as_slice())),
            None => Ok(Vec::new()),
        }
    }

    fn get_node_twin(&self, node_id: u32) -> (r: Result<u32, GridError>)
        ensures
            self.nodes@.contains_key(node_id) ==> r == Ok::<u32, GridError>(node_id),
            !self.nodes@.contains_key(node_id) ==> (r matches Err(e) && is_not_found(e, numbered("node twin "@, node_id as nat))),
    {
        if self.nodes.contains_key(&node_id) {
            Ok(node_id)
        } else {
            Err(not_found_numbered("node twin ", node_id as u64))
        }
    }

    fn get_dedicated_node_price(&self, node_id: u32) -> (r: Result<u64, GridError>)
        ensures
            self.nodes@.contains_key(node_id) ==> r == Ok::<u64, GridError>(0),
            !self.nodes@.contains_key(node_id) ==> (r matches Err(e) && is_not_found(e, numbered("node "@, node_id as nat))),
    {
        if self.nodes.contains_key(&node_id) {
            Ok(0)
        } else {
            Err(not_found_numbered("node ", node_id as u64))
        }
    }

    fn get_contract_with_hash(&self, identity: &Identity, node_id: u32, hash: &str) -> (r: Result<u64, GridError>)
        ensures
            self.contract_hashes@.contains_key(hash_key(node_id, hash@)) ==> r == Ok::<u64, GridError>(self.contract_hashes@[hash_key(node_id, hash@)]),
            !self.contract_hashes@.contains_key(hash_key(node_id, hash@)) ==> (r matches Err(e) && is_not_found(e, "contract hash "@ + hash@)),
    {
        proof {
            reveal_strlit(":");
        }
        let mut key = u64_to_decimal(node_id as u64);
        key.append(":");
        key.append(hash);
        assert(key@ =~= hash_key(node_id, hash@));
        match self.contract_hashes.get(key.as_str()) {
            Some(id) => Ok(*id),
            None => Err(GridError::NotFound(String::from_str("contract hash ").concat(hash))),
        }
    }

    fn get_contract_id_by_name_registration(&self, name: &str) -> (r: Result<u64, GridError>)
        ensures
            self.name_contracts@.contains_key(name@) ==> r == Ok::<u64, GridError>(self.name_contracts@[name@]),
            !self.name_contracts@.contains_key(name@) ==> (r matches Err(e) && is_not_found(e, "name contract "@ + name@ + " not found"@)),
    {
        match self.name_contracts.get(name) {
            Some(id) => Ok(*id),
            None => Err(GridError::NotFound(String::from_str("name contract ").concat(name).concat(" not found"))),
        }
    }

    fn ensure_contract_canceled(&mut self, contract_id: u64) -> (r: Result<(), GridError>)
        ensures
            old(self).contracts@.contains_key(contract_id) ==> r is Ok && final(self).contracts@ == old(self).contracts@.insert(
                contract_id,
                Contract {
                    state: ContractState { is_created: false, is_deleted: true },
                    ..old(self).contracts@[contract_id]
                },
            ),
            !old(self).contracts@.contains_key(contract_id) ==> (r matches Err(e) && is_not_found(e, numbered("contract "@, contract_id as nat)))
                && final(self).contracts@ == old(self).contracts@,
            final(self).nodes@ == old(self).nodes@,
            final(self).node_contracts@ == old(self).node_contracts@,
            final(self).next_contract_id == old(self).next_contract_id,
    {
        match self.contracts.remove(&contract_id) {
            Some(c) => {
                let updated = Contract {
                    contract_id: c.contract_id,
                    state: ContractState { is_created: false, is_deleted: true },
                    contract_type: c.contract_type,
                };
                self.contracts.insert(contract_id, updated);
                assert(self.contracts@ =~= old(self).contracts@.insert(
                    contract_id,
                    Contract {
                        state: ContractState { is_created: false, is_deleted: true },
                        ..old(self).contracts@[contract_id]
                    },
                ));
                Ok(())
            },
            None => Err(not_found_numbered("contract ", contract_id)),
        }
    }

    fn create_node_contract(
        &mut self,
        identity: &Identity,
        node: u32,
        deployment_data: &str,
        hash: &str,
        public_ips: u32,
    ) -> (r: Result<u64, GridError>)
        ensures
            !old(self).nodes@.contains_key(node) ==> (r matches Err(e) && is_not_found(e, numbered("node "@, node as nat)))
                && final(self).contracts@ == old(self).contracts@
                && final(self).node_contracts@ == old(self).node_contracts@
                && final(self).contract_hashes@ == old(self).contract_hashes@
                && final(self).next_contract_id == old(self).next_contract_id,
            old(self).nodes@.contains_key(node) ==> r == Ok::<u64, GridError>(old(self).next_contract_id)
                && final(self).next_contract_id == (if old(self).next_contract_id == u64::MAX { 0 } else { (old(self).next_contract_id + 1) as u64 })
                && final(self).contracts@.dom() == old(self).contracts@.dom().insert(old(self).next_contract_id)
                && final(self).contracts@[old(self).next_contract_id].contract_id == old(self).next_contract_id
                && final(self).contracts@[old(self).next_contract_id].state == (ContractState { is_created: true, is_deleted: false })
                && final(self).contracts@[old(self).next_contract_id].contract_type.is_node_contract
                && !final(self).contracts@[old(self).next_contract_id].contract_type.is_name_contract
                && !final(self).contracts@[old(self).next_contract_id].contract_type.is_rent_contract
                && final(self).contracts@[old(self).next_contract_id].contract_type.node_contract.node == node
                && final(self).contracts@[old(self).next_contract_id].contract_type.node_contract.public_ips_count == public_ips
                && final(self).contracts@[old(self).next_contract_id].contract_type.node_contract.deployment_data@ == deployment_data@
                && (forall|id: u64| id != old(self).next_contract_id && #[trigger] old(self).contracts@.contains_key(id) ==> final(self).contracts@[id] == old(self).contracts@[id])
                && final(self).contract_hashes@ == old(self).contract_hashes@.insert(hash_key(node, hash@), old(self).next_contract_id)
                && final(self).node_contracts@[node]@ == (if old(self).node_contracts@.contains_key(node) {
                    old(self).node_contracts@[node]@
                } else {
                    Seq::empty()
                }).push(old(self).next_contract_id),
            final(self).nodes@ == old(self).nodes@,
    {
        if !self.nodes.contains_key(&node) {
            return Err(not_found_numbered("node ", node as u64));
        }
        let contract_id = self.next_contract_id;
        self.next_contract_id = contract_id.wrapping_add(1);
        let contract = Contract {
            contract_id,
            state: ContractState { is_created: true, is_deleted: false },
            contract_type: ContractType {
                is_name_contract: false,
                is_node_contract: true,
                is_rent_contract: false,
                node_contract: NodeContract {
                    node,
                    public_ips_count: public_ips,
                    deployment_data: String::from_str(deployment_data),
                },
                rent_contract: RentContract { node: 0 },
            },
        };
        self.contracts.insert(contract_id, contract);
        self.push_node_contract(node, contract_id);
        proof {
            reveal_strlit(":");
        }
        let mut key = u64_to_decimal(node as u64);
        key.append(":");
        key.append(hash);
        assert(key@ =~= hash_key(node, hash@));
        self.contract_hashes.insert(key, contract_id);
        Ok(contract_id)
    }

    fn cancel_contract(&mut self, identity: &Identity, contract_id: u64) -> (r: Result<(), GridError>)
        ensures
            old(self).contracts@.contains_key(contract_id) ==> r is Ok && final(self).contracts@ == old(self).contracts@.insert(
                contract_id,
                Contract {
                    state: ContractState { is_created: false, is_deleted: true },
                    ..old(self).contracts@[contract_id]
                },
            ),
            !old(self).contracts@.contains_key(contract_id) ==> (r matches Err(e) && is_not_found(e, numbered("contract "@, contract_id as nat)))
                && final(self).contracts@ == old(self).contracts@,
            final(self).nodes@ == old(self).nodes@,
            final(self).node_contracts@ == old(self).node_contracts@,
    {
        self.ensure_contract_canceled(contract_id)
    }
}

/// Every contract id of the in-memory chain stays below the id it hands out
/// next.
pub open spec fn ids_below_next(m: MockSubstrate) -> bool {
    forall|k: u64| #[trigger] m.contracts@.contains_key(k) ==> k < m.next_contract_id
}

/// Adding a contract below the largest id keeps every id below the next one
/// handed out, so a contract created afterwards never takes an id in use.
pub proof fn law_added_ids_are_not_reused(before: MockSubstrate, after: MockSubstrate, contract: Contract)
    requires
        ids_below_next(before),
        contract.contract_id < u64::MAX,
        after.contracts@ == before.contracts@.insert(contract.contract_id, contract),
        after.next_contract_id == (if contract.contract_id >= before.next_contract_id {
            (contract.contract_id + 1) as u64
        } else {
            before.next_contract_id
        }),
    ensures
        ids_below_next(after),
        !after.contracts@.contains_key(after.next_contract_id),
{
}

/// `c` is a freshly created node contract `id` on `node`, with its
/// deployment data and public IP count.
pub open spec fn new_node_contract(c: Contract, id: u64, node: u32, data: Seq<char>, public_ips: u32) -> bool {
    &&& c.contract_id == id
    &&& c.state == (ContractState { is_created: true, is_deleted: false })
    &&& c.contract_type.is_node_contract
    &&& !c.contract_type.is_name_contract
    &&& !c.contract_type.is_rent_contract
    &&& c.contract_type.node_contract.node == node
    &&& c.contract_type.node_contract.public_ips_count == public_ips
    &&& c.contract_type.node_contract.deployment_data@ == data
}

/// The key under which a contract hash is registered: `<node>:<hash>`.
pub open spec fn hash_key(node_id: u32, hash: Seq<char>) -> Seq<char> {
    crate::text::decimal(node_id as nat) + seq![':'] + hash
}

} // verus!
