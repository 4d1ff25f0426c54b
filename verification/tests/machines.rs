use std::collections::HashMap;

use tfgrid_sdk_rust::json::{parse_json_text as parse_json, JsonValue};
use tfgrid_sdk_rust::machines::{
    assemble_k8s_cluster, decode_k8s_machine_data, decode_machine_data, decode_machine_runtime,
    k8s_node_from_machine, read_back_start, read_back_vm, read_back_workload, vm_from_machine,
    vm_light_from_machine, zmount_size_gb, ReadBackStep,
};
use tfgrid_sdk_rust::env_vars::EnvVars;
use tfgrid_sdk_rust::workloads::{new_qsfs_from_workload, Disk, K8sNode, Mount, Volume, QSFS, VM, ZDB};
use tfgrid_sdk_rust::zos;
use tfgrid_sdk_rust::GridError;

fn machine_workload(name: &str, data: &str, result: &str) -> zos::Workload {
    let mut result_data = zos::ResultData::default();
    result_data.data = parse_json(result).expect("json");
    zos::Workload {
        version: 0,
        name: name.to_string(),
        workload_type: zos::ZMACHINE_TYPE.to_string(),
        data: parse_json(data).expect("json"),
        metadata: String::new(),
        description: "machine".to_string(),
        result: result_data,
    }
}

const VM_DATA: &str = r#"{"flist": "https://hub/f.flist", "network_name": "net", "ip": "10.20.2.2",
    "compute_cpu": 2, "compute_memory_mb": 2048, "rootfs_size_mb": 4096,
    "mounts": [{"name": "data", "mount_point": "/data"}],
    "env_vars": {"SSH_KEY": "key"}, "entrypoint": "/sbin/zinit init"}"#;

#[test]
fn vm_data_is_read_with_its_defaults() {
    let data = decode_machine_data(&parse_json(VM_DATA).unwrap()).expect("data");
    assert_eq!(data.flist, "https://hub/f.flist");
    assert_eq!(data.network_name, "net");
    assert_eq!(data.cpus, 2);
    assert_eq!(data.memory_mb, 2048);
    assert_eq!(data.rootfs_size_mb, 4096);
    assert_eq!(data.mounts.len(), 1);
    assert_eq!(data.mounts[0].mount_point, "/data");
    assert_eq!(data.env_vars.get("SSH_KEY").map(String::as_str), Some("key"));
    assert!(!data.corex);
}

#[test]
fn vm_data_without_a_required_member_is_a_codec_error() {
    let missing = r#"{"flist": "f", "network_name": "net", "ip": "1", "compute_cpu": 2,
        "compute_memory_mb": 1, "rootfs_size_mb": 1}"#;
    assert!(matches!(decode_machine_data(&parse_json(missing).unwrap()), Err(GridError::Codec(_))));
    let too_many_cpus = VM_DATA.replace("\"compute_cpu\": 2", "\"compute_cpu\": 300");
    assert!(matches!(decode_machine_data(&parse_json(&too_many_cpus).unwrap()), Err(GridError::Codec(_))));
    let bad_env = VM_DATA.replace("\"SSH_KEY\": \"key\"", "\"SSH_KEY\": 1");
    assert!(matches!(decode_machine_data(&parse_json(&bad_env).unwrap()), Err(GridError::Codec(_))));
}

#[test]
fn reported_addresses_are_read_leniently() {
    let rt = decode_machine_runtime(&parse_json(r#"{"ygg_ip": "300::1", "console_url": "c"}"#).unwrap(), false);
    assert_eq!(rt.planetary_ip, "");
    assert_eq!(rt.ygg_ip, "300::1");
    assert_eq!(rt.console_url, "c");
    let bad = decode_machine_runtime(&parse_json(r#"{"planetary_ip": 1, "mycelium_ip": "m"}"#).unwrap(), false);
    assert_eq!(bad.mycelium_ip, "");
    let light = decode_machine_runtime(&parse_json(r#"{"planetary_ip": 1, "mycelium_ip": "m"}"#).unwrap(), true);
    assert_eq!(light.mycelium_ip, "m");
    let null = decode_machine_runtime(&JsonValue::Null, false);
    assert_eq!(null.console_url, "");
}

#[test]
fn vm_is_assembled_from_its_parts() {
    let wl = machine_workload("vm1", VM_DATA, r#"{"ygg_ip": "300::1", "mycelium_ip": "400::1"}"#);
    let data = decode_machine_data(&wl.data).unwrap();
    let rt = decode_machine_runtime(&wl.result.data, false);
    let vm = vm_from_machine(
        &wl,
        7,
        data,
        rt,
        "sum".to_string(),
        ("1.2.3.4".to_string(), String::new(), true, false),
    );
    assert_eq!(vm.name, "vm1");
    assert_eq!(vm.node_id, 7);
    assert_eq!(vm.description, "machine");
    assert_eq!(vm.flist_checksum, "sum");
    assert!(vm.planetary);
    assert_eq!(vm.planetary_ip, "300::1");
    assert_eq!(vm.mycelium_ip, "400::1");
    assert_eq!(vm.computed_ip, "1.2.3.4");
    assert!(vm.public_ip);
    assert!(!vm.public_ip6);

    let wl = machine_workload("light", VM_DATA, r#"{"mycelium_ip": "400::2"}"#);
    let light = vm_light_from_machine(
        &wl,
        3,
        decode_machine_data(&wl.data).unwrap(),
        decode_machine_runtime(&wl.result.data, true),
        "sum".to_string(),
    );
    assert_eq!(light.mycelium_ip, "400::2");
    assert_eq!(light.ip, "10.20.2.2");
    assert_eq!(light.computed_ip, "");
}

const K8S_DATA: &str = r#"{"flist": "https://hub/k3s.flist",
    "network": {"planetary": true, "mycelium": {"hex_seed": "0a0b"},
        "interfaces": [{"network": "k8snet", "ip": "10.1.2.3"}]},
    "compute_capacity": {"cpu": 4, "memory": 4294967296},
    "env": {"SSH_KEY": "key", "K3S_TOKEN": "tok"}}"#;

#[test]
fn kubernetes_data_falls_back_to_the_capacity() {
    let wl = machine_workload("master", K8S_DATA, "null");
    let data = decode_k8s_machine_data(&wl).expect("data");
    assert_eq!(data.cpus, 4);
    assert_eq!(data.memory_mb, 4096);
    assert!(data.planetary);
    assert_eq!(data.mycelium_seed, vec![10u8, 11u8]);
    assert_eq!(data.interface_network, "k8snet");
    assert!(matches!(data.interface_ip, Some(JsonValue::String(ref ip)) if ip == "10.1.2.3"));
    assert_eq!(data.entrypoint, "");
}

#[test]
fn kubernetes_data_without_flist_names_the_workload() {
    let wl = machine_workload("worker", r#"{"network": {}}"#, "null");
    match decode_k8s_machine_data(&wl) {
        Err(GridError::Validation(msg)) => assert!(msg.starts_with("failed to parse k8s workload worker: ")),
        _ => panic!("expected a validation error"),
    }
}

fn k8s_node(name: &str, env: &str) -> K8sNode {
    let data = K8S_DATA.replace("\"SSH_KEY\": \"key\", \"K3S_TOKEN\": \"tok\"", env);
    let wl = machine_workload(name, &data, "null");
    k8s_node_from_machine(
        &wl,
        1,
        10,
        "",
        "2a02::1",
        decode_k8s_machine_data(&wl).unwrap(),
        decode_machine_runtime(&wl.result.data, false),
        "10.1.2.3".to_string(),
        "sum".to_string(),
    )
}

#[test]
fn kubernetes_node_is_assembled_from_its_parts() {
    let node = k8s_node("master", "\"SSH_KEY\": \"key\"");
    assert_eq!(node.disk_size_gb, 10);
    assert_eq!(node.vm.network_name, "k8snet");
    assert_eq!(node.vm.ip, "10.1.2.3");
    assert!(!node.vm.public_ip);
    assert!(node.vm.public_ip6);
    assert!(node.vm.planetary);
    assert_eq!(node.vm.mycelium_ip_seed, vec![10u8, 11u8]);
    assert_eq!(node.vm.cpus, 4);
}

#[test]
fn the_last_master_leads_the_cluster() {
    let nodes = vec![
        (k8s_node("m1", "\"SSH_KEY\": \"one\""), Some("p1".to_string())),
        (k8s_node("w1", "\"SSH_KEY\": \"w\""), None),
        (k8s_node("m2", "\"SSH_KEY\": \"two\", \"K3S_TOKEN\": \"t2\""), Some("p2".to_string())),
        (k8s_node("w2", "\"SSH_KEY\": \"w\""), None),
    ];
    let mut ids = HashMap::new();
    ids.insert(1u32, 5u64);
    let cluster = assemble_k8s_cluster(nodes, ids, "k8s").expect("cluster");
    assert_eq!(cluster.master.as_ref().map(|m| m.vm.name.as_str()), Some("m2"));
    let workers: Vec<&str> = cluster.workers.iter().map(|w| w.vm.name.as_str()).collect();
    assert_eq!(workers, vec!["w1", "w2"]);
    assert_eq!(cluster.solution_type, "p2");
    assert_eq!(cluster.ssh_key, "two");
    assert_eq!(cluster.token, "t2");
    assert_eq!(cluster.network_name, "k8snet");
    assert_eq!(cluster.flist_checksum, "sum");
    assert!(cluster.nodes_ip_range.is_empty());
    assert_eq!(cluster.node_deployment_id.get(&1), Some(&5));
}

#[test]
fn a_cluster_without_master_is_not_found() {
    let nodes = vec![(k8s_node("w1", "\"SSH_KEY\": \"w\""), None)];
    match assemble_k8s_cluster(nodes, HashMap::new(), "k8s") {
        Err(GridError::NotFound(msg)) => assert_eq!(msg, "failed to get master node for k8s cluster k8s"),
        _ => panic!("expected not found"),
    }
}

#[test]
fn disk_sizes_read_gigabytes_or_bytes() {
    assert_eq!(zmount_size_gb(&parse_json(r#"{"size_gb": 5, "size": 1}"#).unwrap()), 5);
    assert_eq!(zmount_size_gb(&parse_json(r#"{"size": 3221225472}"#).unwrap()), 3);
    assert_eq!(zmount_size_gb(&parse_json(r#"{"size": "big"}"#).unwrap()), 0);
}

// The two scenarios below read machines back as the loaders do. The flist
// checksum comes from the flist server and the public addresses are
// normalized from their CIDR form before the library assembles the machine;
// here those two values are given as the server and the normalization would
// give them.

#[test]
fn vm_from_workload_reads_public_and_runtime_result() {
    let mut result = zos::ResultData::default();
    result.state = zos::STATE_OK.to_string();
    result.data = parse_json(
        r#"{"planetary_ip": "2001:db8::1", "mycelium_ip": "mycelium-vm1", "console_url": "https://console.example"}"#,
    )
    .unwrap();
    let vm_wl = zos::Workload {
        version: 0,
        name: "vm1".to_string(),
        workload_type: zos::ZMACHINE_TYPE.to_string(),
        data: parse_json(
            r#"{"network_name": "net1", "ip": "192.168.1.10", "compute_cpu": 2, "compute_memory_mb": 4096,
                "rootfs_size_mb": 20, "flist": "http://127.0.0.1/vm1.flist", "entrypoint": "/bin/sh"}"#,
        )
        .unwrap(),
        metadata: String::new(),
        description: "vm".to_string(),
        result,
    };
    let mut ip_result = zos::ResultData::default();
    ip_result.state = zos::STATE_OK.to_string();
    ip_result.data = parse_json(r#"{"ip": "203.0.113.5/32", "ipv6": "2001:db8::2/128"}"#).unwrap();
    let ip_wl = zos::Workload {
        version: 0,
        name: "vm1ip".to_string(),
        workload_type: zos::PUBLIC_IP_TYPE.to_string(),
        data: parse_json("{}").unwrap(),
        metadata: String::new(),
        description: String::new(),
        result: ip_result,
    };
    let dl = zos::Deployment {
        version: 0,
        twin_id: 1,
        contract_id: 10,
        metadata: r#"{"version": 3, "type": "vm", "name": "dep", "projectName": "p"}"#.to_string(),
        description: String::new(),
        expiration: 0,
        signature_requirement: zos::SignatureRequirement::default(),
        workloads: vec![vm_wl, ip_wl],
    };
    let mut substrate = tfgrid_sdk_rust::subi::MockSubstrate::new();
    substrate.add_node(tfgrid_sdk_rust::subi::Node {
        id: 1,
        certification: tfgrid_sdk_rust::subi::Certification { is_certified: false },
        resources: tfgrid_sdk_rust::subi::NodeResources::default(),
    });
    let mut pool = tfgrid_sdk_rust::node::MockNodeClientGetter::new();
    pool.insert_deployment(1, dl).expect("insert");
    let mut state = tfgrid_sdk_rust::state::State::new(pool, substrate);
    state.store_contract_ids(1, &[10]);

    let fetch = state.vm_fetch(1, "vm1", "dep", false).expect("what to fetch");
    assert_eq!(fetch.flist, "http://127.0.0.1/vm1.flist");
    let ip = fetch.ip.as_ref().and_then(tfgrid_sdk_rust::loading::address_text).expect("public ip");
    let ip6 = fetch.ipv6.as_ref().and_then(tfgrid_sdk_rust::loading::address_text).expect("public ip6");
    assert_eq!(ip, "203.0.113.5/32");
    assert_eq!(ip6, "2001:db8::2/128");
    // The flist server answers with a trailing newline; addresses drop their prefix length.
    let checksum_body = "checksum-vm1\n";
    let inputs = tfgrid_sdk_rust::loading::MachineInputs {
        flist_checksum: checksum_body.trim().to_string(),
        ip: ip.split('/').next().unwrap().to_string(),
        ip6: ip6.split('/').next().unwrap().to_string(),
        interface_ip: String::new(),
    };
    let vm = state.load_vm_from_grid(1, "vm1", "dep", &inputs).expect("vm");

    assert_eq!(vm.flist_checksum, "checksum-vm1");
    assert_eq!(vm.computed_ip, "203.0.113.5");
    assert_eq!(vm.computed_ip6, "2001:db8::2");
    assert!(vm.public_ip);
    assert!(vm.public_ip6);
    assert_eq!(vm.planetary_ip, "2001:db8::1");
    assert_eq!(vm.mycelium_ip, "mycelium-vm1");
    assert_eq!(vm.console_url, "https://console.example");
}

#[test]
fn vm_light_from_workload_reads_runtime_result() {
    let mut result = zos::ResultData::default();
    result.state = zos::STATE_OK.to_string();
    result.data = parse_json(r#"{"mycelium_ip": "mycelium-vm2", "console_url": "https://console-2.example"}"#).unwrap();
    let vm_wl = zos::Workload {
        version: 0,
        name: "vm2".to_string(),
        workload_type: zos::ZMACHINE_LIGHT_TYPE.to_string(),
        data: parse_json(
            r#"{"network_name": "net1", "ip": "192.168.1.20", "compute_cpu": 1, "compute_memory_mb": 2048,
                "rootfs_size_mb": 20, "flist": "http://127.0.0.1/vm2.flist", "entrypoint": "/bin/bash"}"#,
        )
        .unwrap(),
        metadata: String::new(),
        description: "vmlight".to_string(),
        result,
    };
    let data = decode_machine_data(&vm_wl.data).expect("vm data");
    let runtime = decode_machine_runtime(&vm_wl.result.data, true);
    let vm = vm_light_from_machine(&vm_wl, 1, data, runtime, "checksum-vm2".to_string());
    assert_eq!(vm.flist_checksum, "checksum-vm2");
    assert_eq!(vm.mycelium_ip, "mycelium-vm2");
    assert_eq!(vm.console_url, "https://console-2.example");
}

#[test]
fn a_deployed_vm_reads_back_from_its_workload() {
    let mut env = EnvVars::new();
    env.insert("SSH_KEY".to_string(), "key".to_string());
    env.insert("A".to_string(), "1".to_string());
    let vm = VM {
        name: "vm1".to_string(),
        node_id: 3,
        network_name: "net".to_string(),
        description: "d".to_string(),
        flist: "https://hub/f.flist".to_string(),
        flist_checksum: String::new(),
        entrypoint: "/sbin/zinit init".to_string(),
        public_ip: true,
        public_ip6: false,
        planetary: false,
        corex: true,
        ip: "10.1.1.2".to_string(),
        mycelium_ip_seed: Vec::new(),
        cpus: 3,
        memory_mb: 1024,
        rootfs_size_mb: 2048,
        mounts: vec![Mount { name: "disk".to_string(), mount_point: "/mnt".to_string() }],
        zlogs: Vec::new(),
        env_vars: env,
        computed_ip: String::new(),
        computed_ip6: String::new(),
        planetary_ip: String::new(),
        mycelium_ip: String::new(),
        console_url: String::new(),
    };
    let workloads = vm.zos_workload();
    let machine = workloads.iter().find(|w| w.workload_type == zos::ZMACHINE_TYPE).expect("zmachine");
    let data = decode_machine_data(&machine.data).expect("reads back");
    assert_eq!(data.flist, vm.flist);
    assert_eq!(data.network_name, vm.network_name);
    assert_eq!(data.ip, vm.ip);
    assert_eq!(data.cpus, 3);
    assert_eq!(data.memory_mb, 1024);
    assert_eq!(data.rootfs_size_mb, 2048);
    assert_eq!(data.mounts.len(), 1);
    assert_eq!(data.mounts[0].name, "disk");
    assert_eq!(data.env_vars.get("A").map(String::as_str), Some("1"));
    assert_eq!(data.env_vars.len(), 2);
    assert_eq!(data.entrypoint, vm.entrypoint);
    assert!(data.corex);
}

fn typed_workload(name: &str, kind: &str, data: &str) -> zos::Workload {
    zos::Workload {
        version: 0,
        name: name.to_string(),
        workload_type: kind.to_string(),
        data: parse_json(data).expect("json"),
        metadata: String::new(),
        description: String::new(),
        result: zos::ResultData::default(),
    }
}

#[test]
fn a_deployment_reads_back_workload_by_workload() {
    let deployment = zos::Deployment {
        version: 0,
        twin_id: 1,
        contract_id: 77,
        metadata: r#"{"version": 3, "type": "vm", "name": "dep", "projectName": "proj"}"#.to_string(),
        description: String::new(),
        expiration: 0,
        signature_requirement: zos::SignatureRequirement::default(),
        workloads: vec![
            typed_workload("disk1", zos::ZMOUNT_TYPE, r#"{"size_gb": 5}"#),
            typed_workload("vol1", zos::VOLUME_TYPE, r#"{}"#),
            typed_workload("db", zos::ZDB_TYPE, r#"{"size_gb": 2, "mode": "seq", "public": true}"#),
            typed_workload("vm1", zos::ZMACHINE_TYPE, VM_DATA),
            typed_workload("vm1ip", zos::PUBLIC_IP_TYPE, r#"{"v4": true}"#),
        ],
    };
    let mut output = read_back_start(&deployment, 9).expect("metadata");
    assert_eq!(output.name, "dep");
    assert_eq!(output.solution_type, "proj");
    assert_eq!(output.contract_id, 77);
    assert_eq!(output.node_deployment_id.get(&9), Some(&77));

    let mut steps = Vec::new();
    for wl in &deployment.workloads {
        steps.push(read_back_workload(&mut output, wl).expect("step"));
    }
    assert_eq!(steps, vec![ReadBackStep::Done, ReadBackStep::Done, ReadBackStep::Done, ReadBackStep::Vm, ReadBackStep::Done]);
    assert_eq!(output.disks[0].size_gb, 5);
    assert_eq!(output.volumes[0].size_gb, 0);
    assert_eq!(output.zdbs[0].mode, "seq");
    assert!(output.zdbs[0].public);

    let wl = &deployment.workloads[3];
    let vm = vm_from_machine(
        wl,
        9,
        decode_machine_data(&wl.data).unwrap(),
        decode_machine_runtime(&wl.result.data, false),
        "sum".to_string(),
        (String::new(), String::new(), false, false),
    );
    read_back_vm(&mut output, vm, 9, "vm1");
    assert_eq!(output.network_name, "net");
    assert_eq!(output.vms.len(), 1);

    let bad_qsfs = typed_workload("q", zos::QUANTUM_SAFE_FS_TYPE, r#"{"name": "q"}"#);
    assert!(matches!(read_back_workload(&mut output, &bad_qsfs), Err(GridError::Codec(_))));
}

#[test]
fn unreadable_metadata_is_a_codec_error() {
    let deployment = zos::Deployment {
        version: 0,
        twin_id: 1,
        contract_id: 1,
        metadata: "not json".to_string(),
        description: String::new(),
        expiration: 0,
        signature_requirement: zos::SignatureRequirement::default(),
        workloads: Vec::new(),
    };
    assert!(matches!(read_back_start(&deployment, 1), Err(GridError::Codec(_))));
}

#[test]
fn deployed_disks_volumes_and_zdbs_read_back() {
    let mut output = read_back_start(
        &zos::Deployment {
            version: 0,
            twin_id: 1,
            contract_id: 2,
            metadata: r#"{"version": 3, "type": "vm", "name": "dep", "projectName": "dep"}"#.to_string(),
            description: String::new(),
            expiration: 0,
            signature_requirement: zos::SignatureRequirement::default(),
            workloads: Vec::new(),
        },
        4,
    )
    .unwrap();
    let disk = Disk { name: "d1".to_string(), size_gb: 12, description: "disk".to_string() };
    let volume = Volume { name: "v1".to_string(), size_gb: 3, description: "vol".to_string() };
    let zdb = ZDB {
        name: "z1".to_string(),
        password: "secret".to_string(),
        public: true,
        size_gb: 7,
        description: "zdb".to_string(),
        mode: "seq".to_string(),
        ips: Vec::new(),
        port: 0,
        namespace: String::new(),
    };
    for wl in [disk.zos_workload(), volume.zos_workload(), zdb.zos_workload()] {
        assert_eq!(read_back_workload(&mut output, &wl).unwrap(), ReadBackStep::Done);
    }
    assert_eq!((output.disks[0].name.as_str(), output.disks[0].size_gb, output.disks[0].description.as_str()), ("d1", 12, "disk"));
    assert_eq!((output.volumes[0].name.as_str(), output.volumes[0].size_gb), ("v1", 3));
    let z = &output.zdbs[0];
    assert_eq!((z.name.as_str(), z.size_gb, z.mode.as_str(), z.public), ("z1", 7, "seq", true));
    assert_eq!(z.password, "");
}

#[test]
fn a_deployed_qsfs_reads_back() {
    let q = QSFS {
        name: "q1".to_string(),
        description: "fs".to_string(),
        cache: -5,
        minimal_shards: 2,
        expected_shards: 4,
        redundant_groups: 1,
        redundant_nodes: 1,
        max_zdb_data_dir_size: 32,
        encryption_algorithm: "AES".to_string(),
        encryption_key: "k".to_string(),
        compression_algorithm: "snappy".to_string(),
        metadata: "meta".to_string(),
        groups: parse_json(r#"[{"backends": []}]"#).unwrap(),
        metrics_endpoint: "http://m".to_string(),
    };
    let back = new_qsfs_from_workload(&q.zos_workload().unwrap()).expect("reads back");
    assert_eq!(back.name, q.name);
    assert_eq!(back.cache, -5);
    assert_eq!(back.expected_shards, 4);
    assert_eq!(back.max_zdb_data_dir_size, 32);
    assert_eq!(back.metadata, "meta");
    assert_eq!(back.metrics_endpoint, q.metrics_endpoint);
    assert!(matches!(back.groups, JsonValue::Array(ref items) if items.len() == 1));
}

#[test]
fn random_uids_are_hex_that_reads_back_as_sixteen_bytes() {
    let uid = tfgrid_sdk_rust::live::rmb::random_uid();
    assert_eq!(uid.len(), 32);
    let bytes = tfgrid_sdk_rust::workloads::decode_hex_like(&uid).expect("hex");
    assert_eq!(bytes.len(), 16);
    let again: String = bytes.iter().map(|b| format!("{b:02x}")).collect();
    assert_eq!(again, uid);
    assert_eq!(tfgrid_sdk_rust::workloads::decode_hex_like("00ff10"), Some(vec![0, 255, 16]));
    assert_eq!(tfgrid_sdk_rust::workloads::decode_hex_like("0f1"), None);
}

#[test]
fn normalizing_network_metadata_twice_changes_nothing() {
    let meta = tfgrid_sdk_rust::workloads::NetworkMetaData {
        version: 3,
        user_accesses: Vec::new(),
        user_accesses_deprecated: Vec::new(),
        version_deprecated: Some(4),
        user_access_ip: "10.1.2.0/24".to_string(),
        private_key: "key".to_string(),
        public_node_id: 7,
    };
    let once = meta.normalized();
    assert_eq!(once.version, 4);
    assert_eq!(once.user_accesses.len(), 1);
    assert_eq!(once.user_accesses[0].subnet, "10.1.2.0/24");
    assert_eq!(once.user_accesses[0].private_key, "key");
    assert_eq!(once.user_accesses[0].node_id, 7);
    let twice = once.normalized();
    assert_eq!(twice.version, 4);
    assert_eq!(twice.user_accesses.len(), 1);
    assert_eq!(twice.user_accesses[0].subnet, "10.1.2.0/24");
    assert_eq!(twice.user_accesses[0].private_key, "key");
    assert_eq!(twice.user_accesses[0].node_id, 7);
    assert_eq!(twice.user_access_ip, "10.1.2.0/24");
}

#[test]
fn public_addresses_are_read_from_text_or_the_first_address_member() {
    use_address("\"203.0.113.7/32\"", Some("203.0.113.7/32"));
    use_address(r#"{"addr": "10.0.0.1", "address": "10.0.0.2"}"#, Some("10.0.0.1"));
    use_address(r#"{"address": "10.0.0.2"}"#, Some("10.0.0.2"));
    use_address(r#"{"ip": 5, "addr": "10.0.0.1"}"#, None);
    use_address("7", None);
}

fn use_address(text: &str, expected: Option<&str>) {
    let v = parse_json(text).unwrap();
    assert_eq!(tfgrid_sdk_rust::loading::address_text(&v).as_deref(), expected);
}
