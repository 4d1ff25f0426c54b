use tfgrid_sdk_rust::node::MockNodeClientGetter;
use tfgrid_sdk_rust::subi::{Certification, Identity, MockSubstrate, Node, NodeResources};
use tfgrid_sdk_rust::workloads::Deployment;
use tfgrid_sdk_rust::{Deployer, GridError, SubstrateExt};

fn substrate_with_node(node_id: u32) -> MockSubstrate {
    let mut substrate = MockSubstrate::new();
    substrate.add_node(Node {
        id: node_id,
        certification: Certification { is_certified: false },
        resources: NodeResources::default(),
    });
    substrate
}

fn empty_deployment(name: &str, node_id: u32, solution_type: &str) -> Deployment {
    Deployment::new(
        name,
        node_id,
        solution_type,
        None,
        "",
        Vec::new(),
        Vec::new(),
        Vec::new(),
        Vec::new(),
        Vec::new(),
        Vec::new(),
    )
}

#[test]
fn deploy_creates_contract_and_uploads_deployment() {
    let node_id = 7u32;
    let identity = Identity::from("alice");
    let mut deployer = Deployer::new(substrate_with_node(node_id), MockNodeClientGetter::new());

    let deployment = empty_deployment("dep1", node_id, "solution-a");

    let contract_id = deployer.deploy(&identity, &deployment).expect("deploy");
    let contract = deployer.substrate().get_contract(contract_id).expect("contract");
    assert!(contract.is_created());
    assert_eq!(contract.contract_type.node_contract.node, node_id);
    assert_eq!(contract.contract_type.node_contract.public_ips_count, 0);

    let uploaded = deployer.load_node_deployment(node_id, contract_id).expect("uploaded deployment");
    assert_eq!(uploaded.contract_id, contract_id);
    assert_eq!(uploaded.metadata, deployment.generate_metadata());
}

#[test]
fn cancel_marks_contract_deleted_and_removes_node_deployment() {
    let node_id = 8u32;
    let identity = Identity::from("bob");
    let mut deployer = Deployer::new(substrate_with_node(node_id), MockNodeClientGetter::new());

    let deployment = empty_deployment("dep2", node_id, "solution-b");

    let contract_id = deployer.deploy(&identity, &deployment).expect("deploy");
    deployer.cancel(&identity, contract_id).expect("cancel");

    let contract = deployer.substrate().get_contract(contract_id).expect("contract");
    assert!(contract.is_deleted());

    let load = deployer.load_node_deployment(node_id, contract_id);
    assert!(matches!(load, Err(GridError::NotFound(_))));
}

#[test]
fn deploy_uses_name_node_and_solution_as_contract_hash() {
    let deployment = empty_deployment("dep3", 9, "solution-c");
    assert_eq!(tfgrid_sdk_rust::deployer::deployment_hash(&deployment), "dep3:9:solution-c");
}

#[test]
fn deploy_on_unknown_node_fails_without_contract() {
    let identity = Identity::from("carol");
    let mut deployer = Deployer::new(substrate_with_node(1), MockNodeClientGetter::new());
    let deployment = empty_deployment("dep4", 2, "solution-d");
    let err = deployer.deploy(&identity, &deployment).expect_err("unknown node");
    assert!(matches!(err, GridError::NotFound(_)));
}
