use std::collections::HashMap;

use tfgrid_sdk_rust::env_vars::EnvVars;
use tfgrid_sdk_rust::json::parse_json_text as parse_json;
use tfgrid_sdk_rust::node::{MockNodeClient, NodeClient};
use tfgrid_sdk_rust::node::MockNodeClientGetter;
use tfgrid_sdk_rust::state::State;
use tfgrid_sdk_rust::subi::MockSubstrate;
use tfgrid_sdk_rust::workloads::{
    new_qsfs_from_workload, Deployment, Disk, K8sCluster, K8sNode, Volume, VM,
};
use tfgrid_sdk_rust::zos;
use tfgrid_sdk_rust::GridError;

fn disk(name: &str) -> Disk {
    Disk { name: name.to_string(), size_gb: 1, description: String::new() }
}

fn volume(name: &str) -> Volume {
    Volume { name: name.to_string(), size_gb: 1, description: String::new() }
}

fn names(disks: &[Disk]) -> Vec<&str> {
    disks.iter().map(|d| d.name.as_str()).collect()
}

#[test]
fn match_deployments_orders_by_the_deployment_positions() {
    let mut deployment = Deployment::new(
        "dep",
        1,
        "",
        None,
        "",
        vec![disk("a"), disk("b")],
        Vec::new(),
        Vec::new(),
        Vec::new(),
        Vec::new(),
        vec![volume("c")],
    );
    deployment.match_deployments(
        vec![disk("x"), disk("b"), disk("c"), disk("a"), disk("y")],
        Vec::new(),
        Vec::new(),
        Vec::new(),
        Vec::new(),
        vec![volume("z"), volume("c")],
    );
    assert_eq!(names(&deployment.disks), vec!["a", "b", "c", "x", "y"]);
    let vols: Vec<&str> = deployment.volumes.iter().map(|v| v.name.as_str()).collect();
    assert_eq!(vols, vec!["c", "z"]);
}

fn workload(data: &str) -> zos::Workload {
    zos::Workload {
        version: 0,
        name: "q".to_string(),
        workload_type: zos::QUANTUM_SAFE_FS_TYPE.to_string(),
        data: parse_json(data).expect("json"),
        metadata: String::new(),
        description: String::new(),
        result: zos::ResultData::default(),
    }
}

#[test]
fn qsfs_is_read_back_from_its_data() {
    let full = r#"{"name": "q1", "description": "d", "cache": -1, "minimal_shards": 2, "expected_shards": 4,
        "redundant_groups": 0, "redundant_nodes": 1, "max_zdb_data_dir_size": 32, "encryption_algorithm": "AES",
        "encryption_key": "k", "compression_algorithm": "snappy", "metadata": "m", "groups": [], "metrics_endpoint": ""}"#;
    let q = new_qsfs_from_workload(&workload(full)).expect("qsfs");
    assert_eq!(q.name, "q1");
    assert_eq!(q.cache, -1);
    assert_eq!(q.expected_shards, 4);
    assert_eq!(q.compression_algorithm, "snappy");

    let missing = r#"{"name": "q1"}"#;
    assert!(matches!(new_qsfs_from_workload(&workload(missing)), Err(GridError::Codec(_))));
    let wrong = full.replace("\"cache\": -1", "\"cache\": \"x\"");
    assert!(matches!(new_qsfs_from_workload(&workload(&wrong)), Err(GridError::Codec(_))));
}

fn vm(node_id: u32) -> VM {
    VM {
        name: format!("vm{node_id}"),
        node_id,
        network_name: "net".to_string(),
        description: String::new(),
        flist: String::new(),
        flist_checksum: String::new(),
        entrypoint: String::new(),
        public_ip: false,
        public_ip6: false,
        planetary: false,
        corex: false,
        ip: String::new(),
        mycelium_ip_seed: Vec::new(),
        cpus: 1,
        memory_mb: 256,
        rootfs_size_mb: 0,
        mounts: Vec::new(),
        zlogs: Vec::new(),
        env_vars: EnvVars::new(),
        computed_ip: String::new(),
        computed_ip6: String::new(),
        planetary_ip: String::new(),
        mycelium_ip: String::new(),
        console_url: String::new(),
    }
}

fn cluster(master: u32, workers: &[u32]) -> K8sCluster {
    K8sCluster {
        master: Some(K8sNode { vm: vm(master), disk_size_gb: 0 }),
        workers: workers.iter().map(|n| K8sNode { vm: vm(*n), disk_size_gb: 0 }).collect(),
        token: String::new(),
        network_name: "net".to_string(),
        flist: String::new(),
        flist_checksum: String::new(),
        entry_point: String::new(),
        solution_type: String::new(),
        ssh_key: String::new(),
        nodes_ip_range: HashMap::new(),
        node_deployment_id: HashMap::new(),
    }
}

#[test]
fn cluster_nodes_get_their_network_subnets() {
    let mut state = State::new(MockNodeClientGetter::new(), MockSubstrate::new());
    let mut subnets = HashMap::new();
    subnets.insert(1u32, "10.1.1.0/24".to_string());
    subnets.insert(2u32, "10.1.2.0/24".to_string());
    state.networks.update_network_subnets("net", subnets);

    let mut ok = cluster(1, &[2]);
    state.assign_nodes_ip_range(&mut ok).expect("ranges");
    assert_eq!(ok.nodes_ip_range.get(&1).map(String::as_str), Some("10.1.1.0/24"));
    assert_eq!(ok.nodes_ip_range.get(&2).map(String::as_str), Some("10.1.2.0/24"));
    assert_eq!(ok.nodes_ip_range.len(), 2);

    let mut missing_worker = cluster(1, &[2, 3]);
    let err = state.assign_nodes_ip_range(&mut missing_worker).expect_err("worker 3");
    assert_eq!(err.message(), "not found: failed to get ip range for worker node 3");
    assert!(missing_worker.nodes_ip_range.is_empty());

    let mut missing_master = cluster(4, &[3]);
    let err = state.assign_nodes_ip_range(&mut missing_master).expect_err("master 4");
    assert_eq!(err.message(), "not found: failed to get ip range for master node 4");
}

fn deployment(contract_id: u64, metadata: &str) -> zos::Deployment {
    zos::Deployment {
        version: 0,
        twin_id: 1,
        contract_id,
        metadata: metadata.to_string(),
        description: String::new(),
        expiration: 0,
        signature_requirement: zos::SignatureRequirement::default(),
        workloads: Vec::new(),
    }
}

#[test]
fn node_reads_back_what_was_stored_and_forgets_what_was_deleted() {
    let mut node = MockNodeClient::new(5);
    node.deployment_put(deployment(7, "first")).expect("put");
    node.deployment_put(deployment(8, "other")).expect("put");
    node.deployment_put(deployment(7, "second")).expect("put");
    assert_eq!(node.deployment_get(7).expect("get").metadata, "second");
    assert_eq!(node.deployment_get(8).expect("get").metadata, "other");
    assert_eq!(node.deployment_list().expect("list").len(), 2);

    node.deployment_delete(7).expect("delete");
    assert!(matches!(node.deployment_get(7), Err(GridError::NotFound(_))));
    assert_eq!(node.deployment_get(8).expect("get").metadata, "other");

    let err = node.deployment_put(deployment(0, "none")).expect_err("no contract");
    assert!(matches!(err, GridError::Validation(_)));
}

#[test]
fn network_state_reads_back_updates_and_deletes() {
    let mut state = State::new(MockNodeClientGetter::new(), MockSubstrate::new());
    let mut subnets = HashMap::new();
    subnets.insert(3u32, "10.3.0.0/24".to_string());
    state.networks.update_network_subnets("n1", subnets);
    assert_eq!(state.networks.get_network("n1").get_node_subnet(3), "10.3.0.0/24");
    assert_eq!(state.networks.get_network("n1").get_node_subnet(4), "");
    assert_eq!(state.networks.get_network("n2").get_node_subnet(3), "");

    let mut network = state.networks.get_network("n1");
    network.set_node_subnet(4, "10.4.0.0/24");
    assert_eq!(network.get_node_subnet(4), "10.4.0.0/24");
    assert_eq!(network.get_node_subnet(3), "10.3.0.0/24");

    state.networks.delete_network("n1");
    assert_eq!(state.networks.get_network("n1").get_node_subnet(3), "");
}

#[test]
fn contract_ids_are_indexed_once_and_removed() {
    let mut state = State::new(MockNodeClientGetter::new(), MockSubstrate::new());
    state.store_contract_ids(1, &[5, 6, 5]);
    state.store_contract_ids(1, &[6, 7]);
    assert_eq!(state.current_node_deployments.get(&1), Some(&vec![5, 6, 7]));
    state.remove_contract_ids(1, &[6]);
    assert_eq!(state.current_node_deployments.get(&1), Some(&vec![5, 7]));
}
