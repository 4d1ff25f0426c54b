use tfgrid_sdk_rust::json::{parse_json_text as parse_json, JsonValue};
use tfgrid_sdk_rust::live::deployment::{empty_result_data, public_ip_count, DeployWorkload};
use tfgrid_sdk_rust::live::nodes::{
    free_mru, free_sru, has_feature, node_has_usable_public_ipv4, ProxyCapacity, ProxyNode,
    ProxyPublicConfig,
};
use tfgrid_sdk_rust::live::payload::{extract_workloads, normalize_workload};
use tfgrid_sdk_rust::live::validate::{validate_vm_light_request, validate_vm_request, vm_ip_from_subnet};
use tfgrid_sdk_rust::zos;
use tfgrid_sdk_rust::{
    FullNetworkSpec, FullNetworkTarget, GridClientConfig, GridError, NetworkLightSpec,
    NetworkTarget, NodePlacement, NodeRequirements, VmDeployment, VmLightDeployment, VmLightSpec,
    VmSpec, VolumeMountSpec,
};

fn json(text: &str) -> JsonValue {
    parse_json(text).expect("valid json")
}

fn text_of<'a>(v: &'a JsonValue, key: &str) -> Option<&'a str> {
    v.get(key).and_then(|x| x.as_str())
}

#[test]
fn normalize_workload_fills_sparse_result_fields() {
    let workload = json(
        r#"{"version": 0, "name": "vm", "type": "zmachine-light", "data": {}, "metadata": "",
            "description": "", "result": {"state": "ok"}}"#,
    );

    let normalized = normalize_workload(workload);
    let result = normalized.get("result").expect("result");
    assert_eq!(text_of(result, "state"), Some("ok"));
    assert_eq!(text_of(result, "error"), Some(""));
    assert_eq!(result.get("created").and_then(|x| x.as_u64()), Some(0));
    assert!(matches!(result.get("data"), Some(JsonValue::Null)));
}

#[test]
fn extract_workloads_accepts_deployment_object_payload() {
    let payload = json(
        r#"{"workloads": [{"version": 0, "name": "net", "type": "network-light", "data": {},
            "metadata": "", "description": "", "result": {"state": "ok"}}]}"#,
    );

    let workloads = extract_workloads(payload).expect("workloads from object payload");
    assert_eq!(workloads.len(), 1);
    assert_eq!(workloads[0].name, "net");
    assert_eq!(workloads[0].result.state, zos::STATE_OK);
}

#[test]
fn extract_workloads_accepts_changes_array_payload() {
    let payload = json(
        r#"[
            {"version": 0, "name": "vm", "type": "zmachine-light", "data": {}, "metadata": "",
             "description": "", "result": {"state": "init"}},
            {"version": 0, "name": "vm", "type": "zmachine-light", "data": {}, "metadata": "",
             "description": "", "result": {"state": "ok"}}
        ]"#,
    );

    let workloads = extract_workloads(payload).expect("workloads from array payload");
    assert_eq!(workloads.len(), 2);
    assert_eq!(workloads[0].result.state, zos::STATE_INIT);
    assert_eq!(workloads[1].result.state, zos::STATE_OK);
}

#[test]
fn validate_vm_light_request_rejects_zero_cpu() {
    let request = VmLightDeployment {
        placement: NodePlacement::default(),
        network: NetworkTarget::Create(NetworkLightSpec::default()),
        vm: VmLightSpec {
            cpu: 0,
            ..Default::default()
        },
    };

    let err = validate_vm_light_request(&request).expect_err("zero cpu must fail");
    assert!(matches!(err, GridError::Validation(_)));
}

#[test]
fn vm_ip_from_subnet_uses_host_five() {
    let ip = vm_ip_from_subnet("10.24.2.0/24").expect("vm ip");
    assert_eq!(ip, "10.24.2.5");
}

#[test]
fn validate_vm_request_rejects_zero_sized_volume() {
    let request = VmDeployment {
        placement: NodePlacement::default(),
        network: FullNetworkTarget::Create(FullNetworkSpec::default()),
        vm: VmSpec {
            volumes: vec![VolumeMountSpec {
                name: "data".to_string(),
                size_bytes: 0,
                mountpoint: "/data".to_string(),
                description: String::new(),
            }],
            ..Default::default()
        },
    };

    let err = validate_vm_request(&request).expect_err("zero-sized volume must fail");
    assert!(matches!(err, GridError::Validation(_)));
}

fn proxy_node_with_public_ipv4(ipv4: &str, gw4: &str, domain: &str, farm_free_ips: u64) -> ProxyNode {
    ProxyNode {
        node_id: 11,
        twin_id: 21,
        status: "up".to_string(),
        healthy: true,
        features: vec![
            "network".to_string(),
            "zmachine".to_string(),
            "volume".to_string(),
            "ip".to_string(),
            "ipv4".to_string(),
        ],
        farm_free_ips,
        public_config: ProxyPublicConfig {
            domain: domain.to_string(),
            gw4: gw4.to_string(),
            gw6: "2a10:b600:1::1".to_string(),
            ipv4: ipv4.to_string(),
            ipv6: "2a10:b600:1::0025:90f0:ede1/64".to_string(),
        },
        total_resources: ProxyCapacity {
            cru: 4,
            mru: 8 * 1024 * 1024 * 1024,
            sru: 100 * 1024 * 1024 * 1024,
        },
        used_resources: ProxyCapacity { cru: 0, mru: 0, sru: 0 },
    }
}

#[test]
fn public_ipv4_node_requires_usable_public_config() {
    let unusable = proxy_node_with_public_ipv4("", "", "", 5);
    assert!(has_feature(&unusable, "ip"));
    assert!(!node_has_usable_public_ipv4(&unusable));

    let usable = proxy_node_with_public_ipv4("185.206.122.32/24", "185.206.122.1", "gent02.dev.grid.tf", 5);
    assert!(node_has_usable_public_ipv4(&usable));
}

#[test]
fn public_ipv4_node_requires_free_ips() {
    let node = proxy_node_with_public_ipv4("185.206.122.32/24", "185.206.122.1", "gent02.dev.grid.tf", 0);
    let has_base = node.status == "up"
        && node.healthy
        && has_feature(&node, "network")
        && has_feature(&node, "zmachine")
        && has_feature(&node, "volume")
        && free_mru(&node) >= NodeRequirements::default().min_memory_bytes
        && free_sru(&node) >= NodeRequirements::default().min_rootfs_bytes
        && node.total_resources.cru.saturating_sub(node.used_resources.cru) >= NodeRequirements::default().min_cru;
    assert!(has_base);
    assert_eq!(node.farm_free_ips, 0);
}

#[test]
fn public_ip_count_matches_public_ip_workloads() {
    let workloads = vec![
        DeployWorkload {
            version: 0,
            name: "vmip".to_string(),
            workload_type: zos::PUBLIC_IP_TYPE.to_string(),
            data: json(r#"{"v4": true, "v6": false}"#),
            metadata: String::new(),
            description: String::new(),
            result: empty_result_data(),
        },
        DeployWorkload {
            version: 0,
            name: "vm".to_string(),
            workload_type: zos::ZMACHINE_TYPE.to_string(),
            data: json("{}"),
            metadata: String::new(),
            description: String::new(),
            result: empty_result_data(),
        },
    ];

    assert_eq!(public_ip_count(&workloads), 1);
}

#[test]
fn vm_light_builder_collects_network_and_volume_settings() {
    let request = VmLightDeployment::builder()
        .auto_with(
            NodeRequirements::builder()
                .min_cru(2)
                .min_memory_bytes(2 * 1024 * 1024 * 1024)
                .min_rootfs_bytes(20 * 1024 * 1024 * 1024)
                .build(),
        )
        .create_network(NetworkLightSpec::builder().name("net").subnet("10.42.2.0/24").build())
        .vm(VmLightSpec::builder()
            .name("vm")
            .cpu(2)
            .memory_bytes(2 * 1024 * 1024 * 1024)
            .rootfs_size_bytes(20 * 1024 * 1024 * 1024)
            .env("SSH_KEY", "ssh-ed25519 test")
            .volume(VolumeMountSpec::new("data", 5 * 1024 * 1024 * 1024, "/data").description("data volume"))
            .build())
        .build();

    assert_eq!(request.vm.name.as_deref(), Some("vm"));
    assert_eq!(request.vm.cpu, 2);
    assert_eq!(request.vm.volumes.len(), 1);
    assert_eq!(request.vm.env.get("SSH_KEY").map(String::as_str), Some("ssh-ed25519 test"));
    match request.network {
        NetworkTarget::Create(network) => {
            assert_eq!(network.name.as_deref(), Some("net"));
            assert_eq!(network.subnet.as_deref(), Some("10.42.2.0/24"));
        }
        other => panic!("unexpected network target: {other:?}"),
    }
    match request.placement {
        NodePlacement::Auto(requirements) => {
            assert_eq!(requirements.min_cru, 2);
        }
        other => panic!("unexpected placement: {other:?}"),
    }
}

#[test]
fn vm_builder_sets_fixed_placement_and_public_networking() {
    let request = VmDeployment::builder()
        .fixed_node(11, 21)
        .create_network(
            FullNetworkSpec::builder()
                .name("full-net")
                .ip_range("10.60.0.0/16")
                .subnet("10.60.2.0/24")
                .wireguard_listen_port(1024)
                .build(),
        )
        .vm(VmSpec::builder().name("full-vm").cpu(2).public_ipv4(true).planetary(true).build())
        .build();

    match request.placement {
        NodePlacement::Fixed { node_id, node_twin_id } => {
            assert_eq!(node_id, 11);
            assert_eq!(node_twin_id, 21);
        }
        other => panic!("unexpected placement: {other:?}"),
    }
    match request.network {
        FullNetworkTarget::Create(network) => {
            assert_eq!(network.name.as_deref(), Some("full-net"));
            assert_eq!(network.ip_range.as_deref(), Some("10.60.0.0/16"));
        }
        other => panic!("unexpected network target: {other:?}"),
    }
    assert!(request.vm.public_ipv4);
    assert!(request.vm.planetary);
    assert_eq!(request.vm.name.as_deref(), Some("full-vm"));
}

#[test]
fn grid_client_config_builder_overrides_devnet_defaults() {
    let config = GridClientConfig::builder()
        .substrate_url("wss://example.test/ws")
        .grid_proxy_url("https://proxy.example.test")
        .relay_url("wss://relay.example.test")
        .http_timeout(std::time::Duration::from_secs(10))
        .rmb_timeout(std::time::Duration::from_secs(15))
        .build();

    assert_eq!(config.substrate_url, "wss://example.test/ws");
    assert_eq!(config.grid_proxy_url, "https://proxy.example.test");
    assert_eq!(config.relay_url, "wss://relay.example.test");
    assert_eq!(config.http_timeout, std::time::Duration::from_secs(10));
    assert_eq!(config.rmb_timeout, std::time::Duration::from_secs(15));
}
