use std::collections::HashMap;

use tfgrid_sdk_rust::json::{parse_json_text as parse_json, JsonValue};
use tfgrid_sdk_rust::node::{MockNodeClientGetter, NodeClient, NodeClientGetter};
use tfgrid_sdk_rust::subi::SubstrateExt;
use tfgrid_sdk_rust::GridError;
use tfgrid_sdk_rust::env_vars::EnvVars;
use tfgrid_sdk_rust::loading::MachineInputs;
use tfgrid_sdk_rust::state::State;
use tfgrid_sdk_rust::workloads::{Deployment, VM};
use tfgrid_sdk_rust::subi::{
    Certification, Contract, ContractState, ContractType, MockSubstrate, Node, NodeContract,
    NodeResources, RentContract,
};
use tfgrid_sdk_rust::zos;

fn json(text: &str) -> JsonValue {
    parse_json(text).expect("valid json")
}

fn node(id: u32) -> Node {
    Node { id, certification: Certification { is_certified: false }, resources: NodeResources::default() }
}

fn node_contract(contract_id: u64, node_id: u32) -> Contract {
    Contract {
        contract_id,
        state: ContractState::default(),
        contract_type: ContractType {
            is_name_contract: false,
            is_node_contract: true,
            is_rent_contract: false,
            node_contract: NodeContract { node: node_id, public_ips_count: 0, deployment_data: String::new() },
            rent_contract: RentContract { node: 0 },
        },
    }
}

fn gateway_name_workload(name: &str) -> zos::Workload {
    zos::Workload {
        version: 0,
        name: name.to_string(),
        workload_type: zos::GATEWAY_NAME_PROXY_TYPE.to_string(),
        data: json(r#"{"name": "my.gw", "tls_passthrough": true, "backends": ["http://backend"]}"#),
        metadata: String::new(),
        description: "gateway".to_string(),
        result: zos::ResultData {
            created: 0,
            state: zos::STATE_OK.to_string(),
            error: String::new(),
            data: json(r#"{"fqdn": "my.gw"}"#),
        },
    }
}

fn deployment(node_id: u32, contract_id: u64, metadata: &str, workloads: Vec<zos::Workload>) -> zos::Deployment {
    zos::Deployment {
        version: 0,
        twin_id: node_id,
        contract_id,
        metadata: metadata.to_string(),
        description: String::new(),
        expiration: 0,
        signature_requirement: zos::SignatureRequirement::default(),
        workloads,
    }
}

#[test]
fn load_gateway_name_from_grid_fills_contract_metadata_and_name_contract() {
    let node_id = 10;
    let contract_id = 100u64;

    let mut substrate = MockSubstrate::new();
    substrate.add_node(node(node_id));
    substrate.add_contract(node_contract(contract_id, node_id));
    substrate.set_contract_name("my.gw", 55);

    let mut nc_pool = MockNodeClientGetter::new();
    let meta = r#"{"version": 3, "type": "Gateway Name", "name": "my.gw", "projectName": "solution-a"}"#;
    nc_pool
        .insert_deployment(node_id, deployment(node_id, contract_id, meta, vec![gateway_name_workload("my.gw")]))
        .expect("deployment insertion");

    let mut state = State::new(nc_pool, substrate);
    state.store_contract_ids(node_id, &[contract_id]);

    let got = state.load_gateway_name_from_grid(node_id, "my.gw", "my.gw").expect("load gateway");
    assert_eq!(got.node_id, node_id);
    assert_eq!(got.contract_id, contract_id);
    assert_eq!(got.name_contract_id, 55);
    assert_eq!(got.solution_type, "solution-a");
    assert_eq!(got.node_deployment_id.get(&node_id).copied(), Some(contract_id));
}

#[test]
fn load_gateway_name_from_grid_uses_deployment_name_for_workload_lookup() {
    let node_id = 11u32;
    let contract_id = 101u64;

    let mut substrate = MockSubstrate::new();
    substrate.add_node(node(node_id));
    substrate.add_contract(node_contract(contract_id, node_id));
    substrate.set_contract_name("gateway.example.com", 77);

    let mut nc_pool = MockNodeClientGetter::new();
    let meta = r#"{"version": 3, "type": "Gateway Name", "name": "gateway-deployment", "projectName": "solution-b"}"#;
    nc_pool
        .insert_deployment(
            node_id,
            deployment(node_id, contract_id, meta, vec![gateway_name_workload("gateway-deployment")]),
        )
        .expect("deployment insertion");

    let mut state = State::new(nc_pool, substrate);
    state.store_contract_ids(node_id, &[contract_id]);

    let got = state
        .load_gateway_name_from_grid(node_id, "gateway.example.com", "gateway-deployment")
        .expect("load gateway");
    assert_eq!(got.name_contract_id, 77);
    assert_eq!(got.contract_id, contract_id);
}

#[test]
fn load_network_light_from_grid_merges_nodes_and_updates_state() {
    let node_a = 21u32;
    let node_b = 22u32;
    let contract_a = 301u64;
    let contract_b = 302u64;

    let mut substrate = MockSubstrate::new();
    for node_id in [node_a, node_b] {
        substrate.add_node(node(node_id));
    }

    let mut nc_pool = MockNodeClientGetter::new();
    for (node_id, contract_id, subnet, key) in [
        (node_a, contract_a, "10.20.1.0/24", "001122"),
        (node_b, contract_b, "10.20.2.0/24", "aabbcc"),
    ] {
        let meta = r#"{"version": 3, "type": "network-light", "name": "nl-dep", "projectName": "netlight-solution"}"#;
        let workload = zos::Workload {
            version: 0,
            name: "nl".to_string(),
            workload_type: zos::NETWORK_LIGHT_TYPE.to_string(),
            data: json(&format!(r#"{{"subnet": "{subnet}", "mycelium": {{"hex_key": "{key}"}}}}"#)),
            metadata: r#"{"version":4,"user_accesses":[]}"#.to_string(),
            description: String::new(),
            result: zos::ResultData::default(),
        };
        nc_pool
            .insert_deployment(node_id, deployment(node_id, contract_id, meta, vec![workload]))
            .expect("insert network-light deployment");
    }

    let mut state = State::new(nc_pool, substrate);
    state.store_contract_ids(node_a, &[contract_a]);
    state.store_contract_ids(node_b, &[contract_b]);

    let znet = state.load_network_light_from_grid("nl").expect("load network light");

    assert_eq!(znet.solution_type, "netlight-solution");
    let mut nodes = znet.nodes.clone();
    nodes.sort_unstable();
    assert_eq!(nodes, vec![node_a, node_b]);
    assert_eq!(znet.nodes_ip_range.get(&node_a).map(String::as_str), Some("10.20.1.0/24"));
    assert_eq!(znet.nodes_ip_range.get(&node_b).map(String::as_str), Some("10.20.2.0/24"));
    assert_eq!(znet.mycelium_keys.get(&node_a), Some(&vec![0x00, 0x11, 0x22]));
    assert_eq!(znet.mycelium_keys.get(&node_b), Some(&vec![0xaa, 0xbb, 0xcc]));
    assert_eq!(state.networks.get_network("nl").get_node_subnet(node_b), "10.20.2.0/24");
}

fn plain_workload(name: &str, kind: &str, data: &str, description: &str, result: &str) -> zos::Workload {
    zos::Workload {
        version: 0,
        name: name.to_string(),
        workload_type: kind.to_string(),
        data: json(data),
        metadata: String::new(),
        description: description.to_string(),
        result: zos::ResultData { created: 0, state: zos::STATE_OK.to_string(), error: String::new(), data: json(result) },
    }
}

// The loader fetches each machine's flist checksum over HTTP and normalizes
// its public addresses from their CIDR form; here those values are given as
// the flist server and the normalization give them, and the library does the
// rest: finding the deployments, reading the machines, picking the master,
// loading the network and assigning the node ranges.
#[test]
fn load_k8s_from_grid_reconstructs_cluster_and_ip_ranges() {
    let master_node = 31u32;
    let worker_node = 32u32;
    let master_contract = 401u64;
    let worker_contract = 402u64;
    let network_contract = 403u64;

    let mut substrate = MockSubstrate::new();
    for node_id in [master_node, worker_node] {
        substrate.add_node(node(node_id));
    }
    let k8s_meta = r#"{"version": 3, "type": "kubernetes", "name": "cluster-a", "projectName": "k8s-solution"}"#;
    let mut nc_pool = MockNodeClientGetter::new();
    nc_pool
        .insert_deployment(
            master_node,
            deployment(
                master_node,
                master_contract,
                k8s_meta,
                vec![
                    plain_workload("masterdisk", zos::ZMOUNT_TYPE, r#"{"size_gb": 50}"#, "", "null"),
                    plain_workload(
                        "masterip",
                        zos::PUBLIC_IP_TYPE,
                        "{}",
                        "",
                        r#"{"ip": "203.0.113.10/32", "ipv6": "2001:db8::10/128"}"#,
                    ),
                    plain_workload(
                        "master",
                        zos::ZMACHINE_TYPE,
                        r#"{"flist": "http://127.0.0.1/k3s-master.flist",
                            "network": {"planetary": true, "interfaces": [{"ip": "10.40.1.2", "network": "cluster-net"}]},
                            "compute_cpu": 2, "compute_memory_mb": 2048, "rootfs_size_mb": 10240,
                            "env": {"SSH_KEY": "ssh-rsa AAAA", "K3S_TOKEN": "token123"},
                            "entrypoint": "/sbin/zinit init"}"#,
                        "master node",
                        r#"{"planetary_ip": "2001:db8::42", "mycelium_ip": "400::1", "console_url": "https://console.master"}"#,
                    ),
                ],
            ),
        )
        .expect("insert master deployment");
    nc_pool
        .insert_deployment(
            worker_node,
            deployment(
                worker_node,
                worker_contract,
                k8s_meta,
                vec![
                    plain_workload("workerdisk", zos::ZMOUNT_TYPE, r#"{"size_gb": 60}"#, "", "null"),
                    plain_workload(
                        "worker",
                        zos::ZMACHINE_TYPE,
                        r#"{"flist": "http://127.0.0.1/k3s-worker.flist",
                            "network": {"interfaces": [{"ip": "10.40.2.2", "network": "cluster-net"}]},
                            "compute_cpu": 2, "compute_memory_mb": 1024, "rootfs_size_mb": 10240,
                            "env": {"K3S_URL": "https://10.40.1.2:6443", "K3S_TOKEN": "token123"},
                            "entrypoint": "/sbin/zinit init"}"#,
                        "worker node",
                        r#"{"console_url": "https://console.worker"}"#,
                    ),
                ],
            ),
        )
        .expect("insert worker deployment");
    for (node_id, subnet) in [(master_node, "10.40.1.0/24"), (worker_node, "10.40.2.0/24")] {
        let net_meta = r#"{"version": 3, "type": "network", "name": "cluster-net-dep", "projectName": "network-solution"}"#;
        let mut network = plain_workload(
            "cluster-net",
            zos::NETWORK_TYPE,
            &format!(r#"{{"ip_range": "10.40.0.0/16", "subnet": "{subnet}", "wireguard_private_key": "", "wireguard_listen_port": 0}}"#),
            "",
            "null",
        );
        network.metadata = r#"{"version": 3, "user_accesses": []}"#.to_string();
        network.result = zos::ResultData::default();
        nc_pool
            .insert_deployment(
                node_id,
                deployment(node_id, network_contract + u64::from(node_id - master_node), net_meta, vec![network]),
            )
            .expect("insert network deployment");
    }

    let mut state = State::new(nc_pool, substrate);
    state.store_contract_ids(master_node, &[master_contract, network_contract]);
    state.store_contract_ids(worker_node, &[worker_contract, network_contract + 1]);

    let fetches = state.k8s_fetch(&[master_node, worker_node], "cluster-a").expect("what to fetch");
    assert_eq!(fetches.len(), 2);
    assert_eq!(fetches[0].flist, "http://127.0.0.1/k3s-master.flist");
    assert!(matches!(&fetches[0].ip, Some(JsonValue::String(t)) if t == "203.0.113.10/32"));
    assert!(matches!(&fetches[0].interface_ip, Some(JsonValue::String(t)) if t == "10.40.1.2"));
    assert_eq!(fetches[1].flist, "http://127.0.0.1/k3s-worker.flist");
    assert!(fetches[1].ip.is_none());
    let inputs = vec![
        MachineInputs {
            flist_checksum: "master-checksum".to_string(),
            ip: "203.0.113.10".to_string(),
            ip6: "2001:db8::10".to_string(),
            interface_ip: "10.40.1.2".to_string(),
        },
        MachineInputs {
            flist_checksum: "worker-checksum".to_string(),
            ip: String::new(),
            ip6: String::new(),
            interface_ip: "10.40.2.2".to_string(),
        },
    ];
    assert!(matches!(
        state.load_k8s_from_grid(&[master_node, worker_node], "cluster-a", &inputs[..1].to_vec()),
        Err(GridError::Validation(_))
    ));
    assert!(matches!(
        state.load_k8s_from_grid(&[99, master_node], "cluster-a", &inputs),
        Err(GridError::NotFound(_))
    ));
    let cluster = state.load_k8s_from_grid(&[master_node, worker_node], "cluster-a", &inputs).expect("cluster");
    assert_eq!(cluster.node_deployment_id.get(&master_node), Some(&master_contract));
    assert_eq!(cluster.node_deployment_id.get(&worker_node), Some(&worker_contract));

    let master = cluster.master.expect("master node");
    assert_eq!(master.vm.name, "master");
    assert_eq!(master.disk_size_gb, 50);
    assert_eq!(master.vm.flist_checksum, "master-checksum");
    assert_eq!(master.vm.computed_ip, "203.0.113.10");
    assert_eq!(master.vm.computed_ip6, "2001:db8::10");
    assert_eq!(cluster.workers.len(), 1);
    assert_eq!(cluster.workers[0].vm.name, "worker");
    assert_eq!(cluster.workers[0].disk_size_gb, 60);
    assert_eq!(cluster.workers[0].vm.flist_checksum, "worker-checksum");
    assert_eq!(cluster.network_name, "cluster-net");
    assert_eq!(cluster.solution_type, "k8s-solution");
    assert_eq!(cluster.ssh_key, "ssh-rsa AAAA");
    assert_eq!(cluster.token, "token123");
    assert_eq!(cluster.nodes_ip_range.get(&master_node).map(String::as_str), Some("10.40.1.0/24"));
    assert_eq!(cluster.nodes_ip_range.get(&worker_node).map(String::as_str), Some("10.40.2.0/24"));
}

// As above, the machine's flist checksum is given as the flist server gives
// it; the library finds the deployment, reads it back workload by workload,
// loads its network and picks the node's subnet.
#[test]
fn load_deployment_from_grid_applies_network_subnet_when_known() {
    let node_id = 11u32;
    let contract_id = 200u64;
    let mut contract = node_contract(contract_id, node_id);
    contract.contract_type.node_contract.deployment_data =
        r#"{"version": 3, "type": "vm", "name": "dep", "projectName": "vm-solution"}"#.to_string();
    let mut substrate = MockSubstrate::new();
    substrate.add_node(node(node_id));
    substrate.add_contract(contract);

    let mut nc_pool = MockNodeClientGetter::new();
    let vm = VM {
        name: "vm".to_string(),
        node_id,
        network_name: "net".to_string(),
        description: "vm".to_string(),
        flist: "http://127.0.0.1/vm.flist".to_string(),
        flist_checksum: String::new(),
        entrypoint: String::new(),
        public_ip: false,
        public_ip6: false,
        planetary: false,
        corex: false,
        ip: "10.0.0.2".to_string(),
        mycelium_ip_seed: Vec::new(),
        cpus: 1,
        memory_mb: 128,
        rootfs_size_mb: 0,
        mounts: Vec::new(),
        zlogs: Vec::new(),
        env_vars: EnvVars::new(),
        computed_ip: String::new(),
        computed_ip6: String::new(),
        planetary_ip: String::new(),
        mycelium_ip: String::new(),
        console_url: String::new(),
    };
    let dep = Deployment::new(
        "dep",
        node_id,
        "vm-solution",
        None,
        "net",
        Vec::new(),
        Vec::new(),
        vec![vm],
        Vec::new(),
        Vec::new(),
        Vec::new(),
    );
    let metadata = dep.generate_metadata();
    let mut zdeploy = dep.zos_deployment(node_id).expect("zos deployment");
    zdeploy.metadata = metadata;
    zdeploy.contract_id = contract_id;
    nc_pool.insert_deployment(node_id, zdeploy).expect("insert dep");

    let mut network_workload = zos::Workload {
        version: 0,
        name: "net".to_string(),
        workload_type: zos::NETWORK_TYPE.to_string(),
        data: json(
            r#"{"ip_range": "10.10.0.0/16", "subnet": "10.10.10.0/24",
                "wireguard_private_key": "aaaaaaaaaaaaaaaaaaaaaaaaaaaaaaaaaaaaaaaaaaa=", "wireguard_listen_port": 1234}"#,
        ),
        metadata: String::new(),
        description: String::new(),
        result: zos::ResultData::default(),
    };
    network_workload.metadata = r#"{"version": 3, "user_accesses": [], "projectName": "solution-a"}"#.to_string();
    let net_meta = r#"{"version": 3, "type": "network", "name": "network-dep", "projectName": "network-solution"}"#;
    nc_pool
        .insert_deployment(node_id, deployment(node_id, 201, net_meta, vec![network_workload]))
        .expect("insert network dep");

    let mut state = State::new(nc_pool, substrate);
    state.store_contract_ids(node_id, &[contract_id]);
    state.store_contract_ids(node_id, &[201]);
    let mut subnets = HashMap::new();
    subnets.insert(node_id, "10.10.10.0/24".to_string());
    state.networks.update_network_subnets("net", subnets);

    let fetches = state.deployment_fetch(node_id, "dep").expect("what to fetch");
    assert_eq!(fetches.len(), 1);
    assert_eq!(fetches[0].name, "vm");
    assert_eq!(fetches[0].flist, "http://127.0.0.1/vm.flist");
    let inputs = vec![MachineInputs {
        flist_checksum: "vm-checksum".to_string(),
        ip: String::new(),
        ip6: String::new(),
        interface_ip: String::new(),
    }];
    let output = state.load_deployment_from_grid(node_id, "dep", &inputs).expect("deployment");
    let fetch = state.vm_fetch(node_id, "vm", "dep", false).expect("what to fetch");
    assert_eq!(fetch.flist, "http://127.0.0.1/vm.flist");
    assert!(fetch.ip.is_none());
    let vm = state.load_vm_from_grid(node_id, "vm", "dep", &inputs[0]).expect("vm");
    assert_eq!(vm.flist_checksum, "vm-checksum");
    assert_eq!(vm.node_id, node_id);
    assert_eq!(vm.cpus, 1);
    assert!(!vm.public_ip);

    assert_eq!(output.network_name, "net");
    assert_eq!(output.ip_range, "10.10.10.0/24");
    assert_eq!(output.solution_type, "vm-solution");
    assert_eq!(output.contract_id, contract_id);
    assert_eq!(output.vms.len(), 1);
    assert_eq!(output.vms[0].flist_checksum, "vm-checksum");
    assert!(matches!(
        state.load_deployment_from_grid(node_id, "dep", &Vec::new()),
        Err(GridError::Validation(_))
    ));
}

#[test]
fn a_deployment_without_network_keeps_its_range() {
    let mut state = State::new(MockNodeClientGetter::new(), MockSubstrate::new());
    let mut output = Deployment::new(
        "dep",
        1,
        "",
        None,
        "",
        Vec::new(),
        Vec::new(),
        Vec::new(),
        Vec::new(),
        Vec::new(),
        Vec::new(),
    );
    output.ip_range = "10.1.0.0/24".to_string();
    state.apply_deployment_network(&mut output, 1).expect("nothing to load");
    assert_eq!(output.ip_range, "10.1.0.0/24");
}

#[test]
fn networks_are_not_found_without_indexed_nodes() {
    let mut state = State::new(MockNodeClientGetter::new(), MockSubstrate::new());
    match state.load_network_from_grid("net") {
        Err(GridError::NotFound(msg)) => assert_eq!(msg, "failed to get network net"),
        _ => panic!("expected not found"),
    }
    match state.load_network_light_from_grid("nl") {
        Err(GridError::NotFound(msg)) => assert_eq!(msg, "failed to get network-light nl"),
        _ => panic!("expected not found"),
    }
}

#[test]
fn a_node_broadcasts_its_id_and_certification() {
    let mut substrate = MockSubstrate::new();
    substrate.add_node(Node { id: 5, certification: Certification { is_certified: true }, resources: NodeResources::default() });
    assert_eq!(substrate.get_contract_broadcast_data(5).expect("known node"), "node:5:true");
    assert!(substrate.get_contract_broadcast_data(6).is_err());
}

#[test]
fn node_clients_are_created_once_per_node() {
    let mut substrate = MockSubstrate::new();
    substrate.add_node(node(7));
    let mut pool = MockNodeClientGetter::new();
    {
        let client = pool.get_node_client(&substrate, 7).expect("client");
        assert_eq!(client.node_id(), 7);
        client.deployment_put(deployment(7, 9, "{}", Vec::new())).expect("stored");
    }
    let again = pool.get_node_client(&substrate, 7).expect("same client");
    assert_eq!(again.deployment_get(9).expect("still stored").contract_id, 9);
    assert!(pool.get_node_client(&substrate, 8).is_err());
}

#[test]
fn a_network_is_rebuilt_from_the_indexed_nodes_that_hold_it() {
    let mut substrate = MockSubstrate::new();
    let mut nc_pool = MockNodeClientGetter::new();
    let meta = r#"{"version": 3, "type": "x", "name": "d", "projectName": "p"}"#;
    for k in 1u32..=2 {
        substrate.add_node(node(k));
        let mut w = plain_workload(
            "n",
            zos::NETWORK_TYPE,
            &format!(r#"{{"ip_range": "10.1.0.0/16", "subnet": "10.1.{k}.0/24", "wireguard_private_key": "", "wireguard_listen_port": 0}}"#),
            "",
            "null",
        );
        w.metadata = r#"{"version": 3, "user_accesses": []}"#.to_string();
        w.result = zos::ResultData::default();
        nc_pool.insert_deployment(k, deployment(k, u64::from(k), meta, vec![w])).expect("insert");
    }
    let mut state = State::new(nc_pool, substrate);
    state.store_contract_ids(1, &[1]);
    state.store_contract_ids(2, &[2]);

    let z = state.load_network_from_grid("n").expect("network");
    let mut nodes = z.nodes.clone();
    nodes.sort();
    assert_eq!(nodes, vec![1, 2]);
    assert_eq!(z.nodes_ip_range.get(&1).map(String::as_str), Some("10.1.1.0/24"));
    assert_eq!(z.nodes_ip_range.get(&2).map(String::as_str), Some("10.1.2.0/24"));
    assert_eq!(z.node_deployment_id.get(&1), Some(&1));
    assert_eq!(z.node_deployment_id.get(&2), Some(&2));
    assert_eq!(z.ip_range, "10.1.0.0/16");
    assert_eq!(z.solution_type, "p");
    let net = state.networks.get_network("n");
    assert_eq!(net.get_node_subnet(1), "10.1.1.0/24");
    assert_eq!(net.get_node_subnet(2), "10.1.2.0/24");
    assert!(matches!(state.load_network_from_grid("other"), Err(GridError::NotFound(_))));
}
